//! Reading a configuration file: its TOML text, parsed by the `toml` crate, becomes a
//! [`ConfigValue`]; a missing file is no layer at all.

use vstd::prelude::*;
use crate::config::{ConfigModel, ConfigTable, ConfigValue, items_model, entries_model};

verus! {

/// The error that `toml` reports for text that is not a TOML document.
#[verifier::external_type_specification]
#[verifier::external_body]
pub struct ExTomlError(toml::de::Error);

/// A TOML value as the `toml` crate parses it.
#[verifier::external_type_specification]
#[verifier::external_body]
pub struct ExTomlValue(toml::Value);

/// An I/O error.
#[verifier::external_type_specification]
#[verifier::external_body]
pub struct ExIoError(std::io::Error);

/// A parsed TOML value as plain data: a table is its entries, each key once.
pub enum TomlNode {
    String(String),
    Integer(i64),
    /// A floating-point value, held by its IEEE 754 bit pattern.
    Float(u64),
    Boolean(bool),
    /// A date or time, held as the text that `toml`'s `Datetime` displays.
    Datetime(String),
    Array(Vec<TomlNode>),
    Table(Vec<(String, TomlNode)>),
}

impl TomlNode {
    pub open spec fn model(self) -> ConfigModel
        decreases self,
    {
        match self {
            TomlNode::String(s) => ConfigModel::String(s@),
            TomlNode::Integer(i) => ConfigModel::Integer(i),
            TomlNode::Float(bits) => ConfigModel::Float(bits),
            TomlNode::Boolean(b) => ConfigModel::Boolean(b),
            TomlNode::Datetime(s) => ConfigModel::Datetime(s@),
            TomlNode::Array(items) => ConfigModel::Array(node_items_model(items@)),
            TomlNode::Table(entries) => ConfigModel::Table(node_entries_model(entries@)),
        }
    }
}

/// The models of a sequence of nodes, in order.
pub open spec fn node_items_model(items: Seq<TomlNode>) -> Seq<ConfigModel>
    decreases items,
{
    if items.len() == 0 {
        Seq::empty()
    } else {
        node_items_model(items.drop_last()).push(items.last().model())
    }
}

/// The map that a sequence of entries denotes; a later entry wins over an earlier one.
pub open spec fn node_entries_model(entries: Seq<(String, TomlNode)>) -> Map<Seq<char>, ConfigModel>
    decreases entries,
{
    if entries.len() == 0 {
        Map::empty()
    } else {
        node_entries_model(entries.drop_last()).insert(entries.last().0@, entries.last().1.model())
    }
}

/// The configuration that the TOML document `text` holds, as `toml` parses it (floats by
/// their bit pattern, dates and times by the text that `toml`'s `Datetime` displays), or
/// `None` where `toml` rejects the text.
pub uninterp spec fn toml_document(text: Seq<char>) -> Option<ConfigModel>;

/// The plain form of a value that `toml` parsed: each variant moved to its counterpart,
/// a table's map turned into its entries. No contract: it only serves `parse_toml`.
#[verifier::external_body]
fn plain_node(value: toml::Value) -> TomlNode {
    match value {
        toml::Value::String(s) => TomlNode::String(s),
        toml::Value::Integer(i) => TomlNode::Integer(i),
        toml::Value::Float(f) => TomlNode::Float(f.to_bits()),
        toml::Value::Boolean(b) => TomlNode::Boolean(b),
        toml::Value::Datetime(d) => TomlNode::Datetime(d.to_string()),
        toml::Value::Array(items) => TomlNode::Array(items.into_iter().map(plain_node).collect()),
        toml::Value::Table(map) => {
            TomlNode::Table(map.into_iter().map(|(k, v)| (k, plain_node(v))).collect())
        },
    }
}

/// `toml::from_str::<toml::Value>` on `text`: the document's value as plain data, or the
/// parse error.
#[verifier::external_body]
fn parse_toml(text: &str) -> (r: Result<TomlNode, toml::de::Error>)
    ensures
        match r {
            Ok(node) => toml_document(text@) == Some(node.model()),
            Err(_) => toml_document(text@) is None,
        },
{
    match toml::from_str::<toml::Value>(text) {
        Ok(value) => Ok(plain_node(value)),
        Err(e) => Err(e),
    }
}

/// The configuration value of a parsed node.
pub fn node_to_config(node: &TomlNode) -> (r: ConfigValue)
    ensures
        r.model() == node.model(),
        node matches TomlNode::Float(bits) ==> r matches ConfigValue::Float(b) && b == bits,
        node matches TomlNode::Integer(i) ==> r matches ConfigValue::Integer(j) && j == i,
        node matches TomlNode::Boolean(x) ==> r matches ConfigValue::Boolean(y) && y == x,
        node matches TomlNode::String(x) ==> r matches ConfigValue::String(y) && y@ == x@,
        node matches TomlNode::Datetime(x) ==> r matches ConfigValue::Datetime(y) && y@ == x@,
    decreases node,
{
    match node {
        TomlNode::String(s) => ConfigValue::String(s.clone()),
        TomlNode::Integer(i) => ConfigValue::Integer(*i),
        TomlNode::Float(bits) => ConfigValue::Float(*bits),
        TomlNode::Boolean(b) => ConfigValue::Boolean(*b),
        TomlNode::Datetime(s) => ConfigValue::Datetime(s.clone()),
        TomlNode::Array(items) => {
            let mut out: Vec<ConfigValue> = Vec::new();
            let n = items.len();
            for i in 0..n
                invariant
                    n == items@.len(),
                    *node == TomlNode::Array(*items),
                    items_model(out@) == node_items_model(items@.take(i as int)),
            {
                proof {
                    assert(decreases_to!(node => node->Array_0));
                    assert(decreases_to!(node->Array_0 => node->Array_0@));
                    assert(decreases_to!(items@ => items@[i as int]));
                }
                let ghost prev = out@;
                out.push(node_to_config(&items[i]));
                assert(out@.drop_last() =~= prev);
                assert(items@.take(i + 1).drop_last() =~= items@.take(i as int));
            }
            assert(items@.take(n as int) =~= items@);
            ConfigValue::Array(out)
        },
        TomlNode::Table(entries) => {
            let mut table = ConfigTable::new();
            let n = entries.len();
            for i in 0..n
                invariant
                    n == entries@.len(),
                    *node == TomlNode::Table(*entries),
                    table.model() == node_entries_model(entries@.take(i as int)),
            {
                proof {
                    assert(decreases_to!(node => node->Table_0));
                    assert(decreases_to!(node->Table_0 => node->Table_0@));
                    assert(decreases_to!(entries@ => entries@[i as int]));
                }
                let value = node_to_config(&entries[i].1);
                table.insert(entries[i].0.clone(), value);
                assert(entries@.take(i + 1).drop_last() =~= entries@.take(i as int));
            }
            assert(entries@.take(n as int) =~= entries@);
            ConfigValue::Table(table)
        },
    }
}

/// The configuration that the TOML document `text` holds, or `toml`'s error.
pub fn parse_config(text: &str) -> (r: Result<ConfigValue, toml::de::Error>)
    ensures
        match r {
            Ok(v) => toml_document(text@) == Some(v.model()),
            Err(_) => toml_document(text@) is None,
        },
{
    match parse_toml(text) {
        Ok(node) => Ok(node_to_config(&node)),
        Err(e) => Err(e),
    }
}

/// What reading a configuration file gave.
pub enum ConfigFileRead {
    Contents(String),
    NotFound,
    Failed(std::io::Error),
}

/// Why a configuration file gave no configuration.
pub enum ConfigReadError {
    /// The file is not a TOML document.
    Parse(toml::de::Error),
    /// The file could not be read.
    Io(std::io::Error),
}

/// The configuration layer that a file gives: its parsed contents; nothing where the
/// file does not exist; an error where it could not be read or is not TOML.
pub fn read_config_from_path(read: ConfigFileRead) -> (r: Result<
    Option<ConfigValue>,
    ConfigReadError,
>)
    ensures
        match read {
            ConfigFileRead::Contents(text) => match toml_document(text@) {
                Some(m) => r matches Ok(Some(v)) && v.model() == m,
                None => r matches Err(ConfigReadError::Parse(_)),
            },
            ConfigFileRead::NotFound => r matches Ok(None),
            ConfigFileRead::Failed(e) => r == Err::<Option<ConfigValue>, _>(ConfigReadError::Io(e)),
        },
{
    match read {
        ConfigFileRead::Contents(text) => match parse_config(text.as_str()) {
            Ok(value) => Ok(Some(value)),
            Err(e) => Err(ConfigReadError::Parse(e)),
        },
        ConfigFileRead::NotFound => Ok(None),
        ConfigFileRead::Failed(e) => Err(ConfigReadError::Io(e)),
    }
}

/// Parsing keeps every scalar exactly as `toml` gives it: the meaning of a parsed
/// string, integer, float (its bit pattern, sign included), boolean or date is that very
/// value, and so is the meaning of the configuration value holding it.
pub proof fn lemma_scalars_kept(s: String, i: i64, bits: u64, b: bool, d: String)
    ensures
        TomlNode::String(s).model() == ConfigModel::String(s@),
        TomlNode::Integer(i).model() == ConfigModel::Integer(i),
        TomlNode::Float(bits).model() == ConfigModel::Float(bits),
        TomlNode::Boolean(b).model() == ConfigModel::Boolean(b),
        TomlNode::Datetime(d).model() == ConfigModel::Datetime(d@),
        ConfigValue::String(s).model() == ConfigModel::String(s@),
        ConfigValue::Integer(i).model() == ConfigModel::Integer(i),
        ConfigValue::Float(bits).model() == ConfigModel::Float(bits),
        ConfigValue::Boolean(b).model() == ConfigModel::Boolean(b),
        ConfigValue::Datetime(d).model() == ConfigModel::Datetime(d@),
{
}

/// A parsed table holds each of its keys with the meaning of that key's node, and
/// nothing else; an array holds its items' meanings, in order.
pub proof fn lemma_node_structure(node: TomlNode)
    ensures
        node matches TomlNode::Table(entries) ==> {
            &&& node.model() is Table
            &&& forall|k: Seq<char>|
                #[trigger] node.model()->Table_0.dom().contains(k) <==> exists|a: int|
                    0 <= a < entries@.len() && #[trigger] entries@[a].0@ == k
        },
        node matches TomlNode::Array(items) ==> {
            &&& node.model() is Array
            &&& node.model()->Array_0.len() == items@.len()
            &&& forall|a: int|
                0 <= a < items@.len() ==> #[trigger] node.model()->Array_0[a] == items@[a].model()
        },
{
    match node {
        TomlNode::Table(entries) => {
            lemma_node_entries_dom(entries@);
            let m = node.model()->Table_0;
            assert(m == node_entries_model(entries@));
            assert forall|k: Seq<char>| #[trigger] m.dom().contains(k) <==> exists|a: int|
                0 <= a < entries@.len() && #[trigger] entries@[a].0@ == k by {
                assert(node_entries_model(entries@).dom().contains(k) == m.dom().contains(k));
            }
        },
        TomlNode::Array(items) => lemma_node_items(items@),
        _ => {},
    }
}

proof fn lemma_node_entries_dom(entries: Seq<(String, TomlNode)>)
    ensures
        forall|k: Seq<char>|
            #[trigger] node_entries_model(entries).dom().contains(k) <==> exists|a: int|
                0 <= a < entries.len() && #[trigger] entries[a].0@ == k,
    decreases entries.len(),
{
    if entries.len() > 0 {
        let init = entries.drop_last();
        lemma_node_entries_dom(init);
        assert(node_entries_model(entries) == node_entries_model(init).insert(
            entries.last().0@,
            entries.last().1.model(),
        ));
        assert forall|k: Seq<char>|
            #[trigger] node_entries_model(entries).dom().contains(k) <==> exists|a: int|
                0 <= a < entries.len() && #[trigger] entries[a].0@ == k by {
            if node_entries_model(entries).dom().contains(k) && k != entries.last().0@ {
                assert(node_entries_model(init).dom().contains(k));
                let a = choose|a: int| 0 <= a < init.len() && #[trigger] init[a].0@ == k;
                assert(init[a] == entries[a]);
                assert(entries[a].0@ == k);
            }
            if exists|a: int| 0 <= a < entries.len() && #[trigger] entries[a].0@ == k {
                let a = choose|a: int| 0 <= a < entries.len() && #[trigger] entries[a].0@ == k;
                if a < init.len() {
                    assert(init[a] == entries[a]);
                    assert(init[a].0@ == k);
                }
            }
        }
    }
}

proof fn lemma_node_items(items: Seq<TomlNode>)
    ensures
        node_items_model(items).len() == items.len(),
        forall|a: int| 0 <= a < items.len() ==> #[trigger] node_items_model(items)[a] == items[a].model(),
    decreases items.len(),
{
    if items.len() > 0 {
        lemma_node_items(items.drop_last());
        assert forall|a: int| 0 <= a < items.len() implies #[trigger] node_items_model(items)[a]
            == items[a].model() by {
            if a < items.len() - 1 {
                assert(items.drop_last()[a] == items[a]);
            }
        }
    }
}

} // verus!
