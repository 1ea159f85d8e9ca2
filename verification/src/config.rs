//! Configuration values and the overlay merge that layers them.

use vstd::prelude::*;
use vstd::std_specs::cmp::PartialEqSpecImpl;

verus! {

/// A configuration value as read from a TOML document.
#[derive(Debug)]
pub enum ConfigValue {
    String(String),
    Integer(i64),
    /// A floating-point value, held by its IEEE 754 bit pattern.
    Float(u64),
    Boolean(bool),
    /// A date or time, held as the text that `toml`'s `Datetime` displays.
    Datetime(String),
    Array(Vec<ConfigValue>),
    Table(ConfigTable),
}

/// A table of configuration values; no key occurs twice.
#[derive(Debug)]
pub struct ConfigTable {
    entries: Vec<(String, ConfigValue)>,
}

/// The mathematical meaning of a [`ConfigValue`]: tables are finite maps.
pub enum ConfigModel {
    String(Seq<char>),
    Integer(i64),
    Float(u64),
    Boolean(bool),
    Datetime(Seq<char>),
    Array(Seq<ConfigModel>),
    Table(Map<Seq<char>, ConfigModel>),
}

/// No two entries of `entries` carry the same key.
pub open spec fn keys_distinct(entries: Seq<(String, ConfigValue)>) -> bool {
    forall|i: int, j: int|
        0 <= i < j < entries.len() ==> #[trigger] entries[i].0@ != #[trigger] entries[j].0@
}

impl ConfigValue {
    pub open spec fn model(self) -> ConfigModel
        decreases self,
    {
        match self {
            ConfigValue::String(s) => ConfigModel::String(s@),
            ConfigValue::Integer(i) => ConfigModel::Integer(i),
            ConfigValue::Float(bits) => ConfigModel::Float(bits),
            ConfigValue::Boolean(b) => ConfigModel::Boolean(b),
            ConfigValue::Datetime(s) => ConfigModel::Datetime(s@),
            ConfigValue::Array(items) => ConfigModel::Array(items_model(items@)),
            ConfigValue::Table(t) => ConfigModel::Table(t.model()),
        }
    }
}

/// The models of a sequence of values, in order.
pub open spec fn items_model(items: Seq<ConfigValue>) -> Seq<ConfigModel>
    decreases items,
{
    if items.len() == 0 {
        Seq::empty()
    } else {
        items_model(items.drop_last()).push(items.last().model())
    }
}

/// The map that a sequence of entries denotes; a later entry wins over an earlier one.
pub open spec fn entries_model(entries: Seq<(String, ConfigValue)>) -> Map<Seq<char>, ConfigModel>
    decreases entries,
{
    if entries.len() == 0 {
        Map::empty()
    } else {
        entries_model(entries.drop_last()).insert(entries.last().0@, entries.last().1.model())
    }
}

impl ConfigTable {
    #[verifier::type_invariant]
    closed spec fn wf(self) -> bool {
        keys_distinct(self.entries@)
    }

    pub closed spec fn model(self) -> Map<Seq<char>, ConfigModel>
        decreases self,
    {
        entries_model(self.entries@)
    }
}

/// The model of merging `overlay` into `base`. Where both are tables, a key of only
/// one of them keeps its value and a key of both gets the merge of its two values;
/// otherwise the overlay replaces the base.
pub open spec fn merge_models(base: ConfigModel, overlay: ConfigModel) -> ConfigModel
    decreases overlay,
{
    match (base, overlay) {
        (ConfigModel::Table(b), ConfigModel::Table(o)) => ConfigModel::Table(
            Map::new(
                |k: Seq<char>| b.dom().contains(k) || o.dom().contains(k),
                |k: Seq<char>|
                    if o.dom().contains(k) {
                        if b.dom().contains(k) {
                            merge_models(b[k], o[k])
                        } else {
                            o[k]
                        }
                    } else {
                        b[k]
                    },
            ),
        ),
        _ => overlay,
    }
}

/// The table that merging table `o` into table `b` gives.
pub open spec fn merge_tables(
    b: Map<Seq<char>, ConfigModel>,
    o: Map<Seq<char>, ConfigModel>,
) -> Map<Seq<char>, ConfigModel> {
    merge_models(ConfigModel::Table(b), ConfigModel::Table(o))->Table_0
}

/// What a table holds after the first `j` entries of `oe` were merged into `b`, one at a time.
spec fn merge_prefix(
    b: Map<Seq<char>, ConfigModel>,
    oe: Seq<(String, ConfigValue)>,
    j: int,
) -> Map<Seq<char>, ConfigModel>
    decreases j,
{
    if j <= 0 {
        b
    } else {
        let p = merge_prefix(b, oe, j - 1);
        let k = oe[j - 1].0@;
        let v = oe[j - 1].1.model();
        p.insert(k, if p.dom().contains(k) { merge_models(p[k], v) } else { v })
    }
}

/// Distinct entries denote the map from each entry's key to its value's model.
proof fn lemma_entries_model(entries: Seq<(String, ConfigValue)>)
    requires
        keys_distinct(entries),
    ensures
        entries_model(entries).dom().finite(),
        entries_model(entries).dom().len() == entries.len(),
        forall|k: Seq<char>|
            #![trigger entries_model(entries).dom().contains(k)]
            entries_model(entries).dom().contains(k) <==> exists|i: int|
                0 <= i < entries.len() && #[trigger] entries[i].0@ == k,
        forall|i: int|
            0 <= i < entries.len() ==> entries_model(entries)[#[trigger] entries[i].0@]
                == entries[i].1.model(),
    decreases entries.len(),
{
    if entries.len() > 0 {
        let init = entries.drop_last();
        let last = entries.last();
        assert forall|i: int, j: int| 0 <= i < j < init.len() implies #[trigger] init[i].0@
            != #[trigger] init[j].0@ by {
            assert(init[i] == entries[i] && init[j] == entries[j]);
        }
        lemma_entries_model(init);
        assert(!entries_model(init).dom().contains(last.0@)) by {
            if entries_model(init).dom().contains(last.0@) {
                let i = choose|i: int| 0 <= i < init.len() && #[trigger] init[i].0@ == last.0@;
                assert(entries[i].0@ != entries[entries.len() - 1].0@);
            }
        }
        assert forall|k: Seq<char>|
            entries_model(entries).dom().contains(k) <==> exists|i: int|
                0 <= i < entries.len() && #[trigger] entries[i].0@ == k by {
            if entries_model(entries).dom().contains(k) && k != last.0@ {
                let i = choose|i: int| 0 <= i < init.len() && #[trigger] init[i].0@ == k;
                assert(entries[i].0@ == k);
            }
            if exists|i: int| 0 <= i < entries.len() && #[trigger] entries[i].0@ == k {
                let i = choose|i: int| 0 <= i < entries.len() && #[trigger] entries[i].0@ == k;
                if i < init.len() {
                    assert(init[i].0@ == k);
                }
            }
        }
        assert forall|i: int| 0 <= i < entries.len() implies entries_model(entries)[
            #[trigger] entries[i].0@] == entries[i].1.model() by {
            if i < init.len() {
                assert(init[i] == entries[i]);
                assert(entries[i].0@ != last.0@);
            }
        }
    }
}

/// A prefix of distinct entries has distinct entries.
proof fn lemma_take_distinct(entries: Seq<(String, ConfigValue)>, j: int)
    requires
        keys_distinct(entries),
        0 <= j <= entries.len(),
    ensures
        keys_distinct(entries.take(j)),
{
    let t = entries.take(j);
    assert forall|a: int, c: int| 0 <= a < c < t.len() implies #[trigger] t[a].0@
        != #[trigger] t[c].0@ by {
        assert(t[a] == entries[a] && t[c] == entries[c]);
    }
}

/// Merging the first `j` entries one at a time gives the merge of the table they denote.
proof fn lemma_merge_prefix(
    b: Map<Seq<char>, ConfigModel>,
    oe: Seq<(String, ConfigValue)>,
    j: int,
)
    requires
        keys_distinct(oe),
        0 <= j <= oe.len(),
    ensures
        merge_prefix(b, oe, j) == merge_tables(b, entries_model(oe.take(j))),
    decreases j,
{
    let t = oe.take(j);
    if j == 0 {
        assert(t.len() == 0);
        assert(merge_tables(b, entries_model(t)) =~= b);
    } else {
        lemma_merge_prefix(b, oe, j - 1);
        let s = oe.take(j - 1);
        assert(t.drop_last() =~= s);
        lemma_take_distinct(oe, j - 1);
        lemma_entries_model(s);
        let k = oe[j - 1].0@;
        let v = oe[j - 1].1.model();
        assert(t.last() == oe[j - 1]);
        assert(entries_model(t) == entries_model(s).insert(k, v));
        assert(!entries_model(s).dom().contains(k)) by {
            if entries_model(s).dom().contains(k) {
                let i = choose|i: int| 0 <= i < s.len() && #[trigger] s[i].0@ == k;
                assert(oe[i].0@ != oe[j - 1].0@);
            }
        }
        let p = merge_tables(b, entries_model(s));
        assert(p.dom().contains(k) == b.dom().contains(k));
        assert(b.dom().contains(k) ==> p[k] == b[k]);
        assert(merge_tables(b, entries_model(t)) =~= merge_prefix(b, oe, j));
    }
}

impl ConfigValue {
    /// A copy of this value that denotes the same configuration.
    pub fn deep_copy(&self) -> (r: ConfigValue)
        ensures
            r.model() == self.model(),
        decreases self,
    {
        match self {
            ConfigValue::String(s) => ConfigValue::String(s.clone()),
            ConfigValue::Integer(i) => ConfigValue::Integer(*i),
            ConfigValue::Float(bits) => ConfigValue::Float(*bits),
            ConfigValue::Boolean(b) => ConfigValue::Boolean(*b),
            ConfigValue::Datetime(s) => ConfigValue::Datetime(s.clone()),
            ConfigValue::Array(items) => {
                let mut out: Vec<ConfigValue> = Vec::new();
                let n = items.len();
                for i in 0..n
                    invariant
                        n == items@.len(),
                        out@.len() == i,
                        items_model(out@) == items_model(items@.take(i as int)),
                        *self == ConfigValue::Array(*items),
                {
                    proof {
                        assert(decreases_to!(self => self->Array_0));
                        assert(decreases_to!(self->Array_0 => self->Array_0@));
                        assert(decreases_to!(items@ => items@[i as int]));
                    }
                    let ghost prev = out@;
                    let c = items[i].deep_copy();
                    out.push(c);
                    assert(out@.drop_last() =~= prev);
                    assert(items@.take(i + 1).drop_last() =~= items@.take(i as int));
                }
                assert(items@.take(n as int) =~= items@);
                ConfigValue::Array(out)
            },
            ConfigValue::Table(t) => ConfigValue::Table(t.deep_copy()),
        }
    }
}

impl ConfigTable {
    /// An empty table.
    pub fn new() -> (t: ConfigTable)
        ensures
            t.model() == Map::<Seq<char>, ConfigModel>::empty(),
    {
        ConfigTable { entries: Vec::new() }
    }

    /// The number of keys in the table.
    pub fn len(&self) -> (n: usize)
        ensures
            n == self.model().dom().len(),
    {
        proof {
            use_type_invariant(self);
            lemma_entries_model(self.entries@);
        }
        self.entries.len()
    }

    /// Whether the table holds no key.
    pub fn is_empty(&self) -> (b: bool)
        ensures
            b <==> self.model() == Map::<Seq<char>, ConfigModel>::empty(),
    {
        proof {
            use_type_invariant(self);
            lemma_entries_model(self.entries@);
            if self.entries@.len() > 0 {
                assert(self.model().dom().contains(self.entries@[0].0@));
            }
        }
        self.entries.len() == 0
    }

    /// The entries of the table, each key once.
    pub fn entries(&self) -> (r: &Vec<(String, ConfigValue)>)
        ensures
            keys_distinct(r@),
            entries_model(r@) == self.model(),
    {
        proof {
            use_type_invariant(self);
        }
        &self.entries
    }

    /// The value stored under `key`, if any.
    pub fn get(&self, key: &str) -> (r: Option<&ConfigValue>)
        ensures
            match r {
                Some(v) => self.model().dom().contains(key@) && v.model() == self.model()[key@],
                None => !self.model().dom().contains(key@),
            },
    {
        proof {
            use_type_invariant(self);
            lemma_entries_model(self.entries@);
        }
        let owned = key.to_owned();
        match find_key(&self.entries, &owned) {
            Some(i) => Some(&self.entries[i].1),
            None => None,
        }
    }

    /// Stores `value` under `key`, replacing and returning the value stored there before.
    pub fn insert(&mut self, key: String, value: ConfigValue) -> (r: Option<ConfigValue>)
        ensures
            final(self).model() == old(self).model().insert(key@, value.model()),
            match r {
                Some(v) => old(self).model().dom().contains(key@) && v.model() == old(
                    self,
                ).model()[key@],
                None => !old(self).model().dom().contains(key@),
            },
    {
        proof {
            use_type_invariant(&*self);
        }
        let mut entries: Vec<(String, ConfigValue)> = Vec::new();
        std::mem::swap(&mut entries, &mut self.entries);
        let ghost before = entries@;
        proof {
            lemma_entries_model(before);
        }
        let ghost value_model = value.model();
        let r = match find_key(&entries, &key) {
            Some(i) => {
                let (k, previous) = entries.remove(i);
                entries.insert(i, (k, value));
                proof {
                    lemma_entries_update(before, i as int, entries@);
                }
                Some(previous)
            },
            None => {
                entries.push((key, value));
                proof {
                    lemma_entries_push_new(before, entries@);
                }
                None
            },
        };
        self.entries = entries;
        r
    }

    /// A copy of this table that denotes the same configuration.
    pub fn deep_copy(&self) -> (r: ConfigTable)
        ensures
            r.model() == self.model(),
        decreases self,
    {
        proof {
            use_type_invariant(self);
        }
        let mut out: Vec<(String, ConfigValue)> = Vec::new();
        let n = self.entries.len();
        for i in 0..n
            invariant
                n == self.entries@.len(),
                keys_distinct(self.entries@),
                out@.len() == i,
                forall|a: int| 0 <= a < i ==> #[trigger] out@[a].0@ == self.entries@[a].0@,
                entries_model(out@) == entries_model(self.entries@.take(i as int)),
        {
            let ghost prev = out@;
            let k = self.entries[i].0.clone();
            let v = self.entries[i].1.deep_copy();
            out.push((k, v));
            assert(out@.drop_last() =~= prev);
            assert(self.entries@.take(i + 1).drop_last() =~= self.entries@.take(i as int));
        }
        assert(self.entries@.take(n as int) =~= self.entries@);
        assert forall|a: int, c: int| 0 <= a < c < out@.len() implies #[trigger] out@[a].0@
            != #[trigger] out@[c].0@ by {
            assert(out@[a].0@ == self.entries@[a].0@);
            assert(out@[c].0@ == self.entries@[c].0@);
        }
        ConfigTable { entries: out }
    }

    /// Merges `overlay` into this table: keys only in `overlay` are added, and the value
    /// of a key in both is merged with the overlay's value.
    fn merge_from(&mut self, overlay: &ConfigTable)
        ensures
            final(self).model() == merge_tables(old(self).model(), overlay.model()),
        decreases overlay,
    {
        proof {
            use_type_invariant(&*self);
            use_type_invariant(overlay);
        }
        let mut entries: Vec<(String, ConfigValue)> = Vec::new();
        std::mem::swap(&mut entries, &mut self.entries);
        let ghost b = entries_model(entries@);
        let ghost oe = overlay.entries@;
        let n = overlay.entries.len();
        for j in 0..n
            invariant
                n == oe.len(),
                oe == overlay.entries@,
                keys_distinct(oe),
                keys_distinct(entries@),
                entries_model(entries@) == merge_prefix(b, oe, j as int),
        {
            let ghost before = entries@;
            proof {
                lemma_entries_model(before);
            }
            let key = &overlay.entries[j].0;
            let value = &overlay.entries[j].1;
            match find_key(&entries, key) {
                Some(i) => {
                    let (k, mut existing) = entries.remove(i);
                    assert(decreases_to!(overlay => oe[j as int].1));
                    merge_toml_values(&mut existing, value);
                    entries.insert(i, (k, existing));
                    proof {
                        lemma_entries_update(before, i as int, entries@);
                    }
                },
                None => {
                    let copied = value.deep_copy();
                    entries.push((key.clone(), copied));
                    proof {
                        lemma_entries_push_new(before, entries@);
                    }
                },
            }
        }
        proof {
            lemma_merge_prefix(b, oe, n as int);
            assert(oe.take(n as int) =~= oe);
        }
        self.entries = entries;
    }
}

/// The position of the entry whose key is `key`, if there is one.
fn find_key(entries: &Vec<(String, ConfigValue)>, key: &String) -> (r: Option<usize>)
    ensures
        match r {
            Some(i) => i < entries@.len() && entries@[i as int].0@ == key@,
            None => forall|i: int| 0 <= i < entries@.len() ==> #[trigger] entries@[i].0@ != key@,
        },
{
    let n = entries.len();
    for i in 0..n
        invariant
            n == entries@.len(),
            forall|a: int| 0 <= a < i ==> #[trigger] entries@[a].0@ != key@,
    {
        if entries[i].0 == *key {
            return Some(i);
        }
    }
    None
}

/// Replacing the value of an entry of distinct entries stores it under that entry's key.
proof fn lemma_entries_update(
    before: Seq<(String, ConfigValue)>,
    i: int,
    after: Seq<(String, ConfigValue)>,
)
    requires
        keys_distinct(before),
        0 <= i < before.len(),
        after.len() == before.len(),
        after[i].0@ == before[i].0@,
        forall|a: int| 0 <= a < before.len() && a != i ==> after[a] == before[a],
    ensures
        keys_distinct(after),
        entries_model(after) == entries_model(before).insert(before[i].0@, after[i].1.model()),
{
    assert forall|a: int, c: int| 0 <= a < c < after.len() implies #[trigger] after[a].0@
        != #[trigger] after[c].0@ by {
        assert(before[a].0@ != before[c].0@);
    }
    lemma_entries_model(before);
    lemma_entries_model(after);
    let m = entries_model(before).insert(before[i].0@, after[i].1.model());
    assert forall|k: Seq<char>| #[trigger] entries_model(after).dom().contains(k) <==> m.dom().contains(
        k,
    ) by {
        if entries_model(after).dom().contains(k) {
            let a = choose|a: int| 0 <= a < after.len() && #[trigger] after[a].0@ == k;
            if a != i {
                assert(before[a].0@ == k);
            }
        }
        if m.dom().contains(k) && k != before[i].0@ {
            let a = choose|a: int| 0 <= a < before.len() && #[trigger] before[a].0@ == k;
            assert(after[a].0@ == k);
        }
    }
    assert forall|k: Seq<char>| #[trigger] entries_model(after).dom().contains(k) implies entries_model(
        after,
    )[k] == m[k] by {
        let a = choose|a: int| 0 <= a < after.len() && #[trigger] after[a].0@ == k;
        if a != i {
            assert(before[a] == after[a]);
        }
    }
    assert(entries_model(after) =~= m);
}

/// Appending an entry under a new key stores its value under that key.
proof fn lemma_entries_push_new(before: Seq<(String, ConfigValue)>, after: Seq<(String, ConfigValue)>)
    requires
        keys_distinct(before),
        after.len() == before.len() + 1,
        forall|a: int| 0 <= a < before.len() ==> after[a] == before[a],
        forall|a: int| 0 <= a < before.len() ==> #[trigger] before[a].0@ != after.last().0@,
    ensures
        keys_distinct(after),
        entries_model(after) == entries_model(before).insert(after.last().0@, after.last().1.model()),
{
    assert(after.drop_last() =~= before);
    assert forall|a: int, c: int| 0 <= a < c < after.len() implies #[trigger] after[a].0@
        != #[trigger] after[c].0@ by {
        if c < before.len() {
            assert(before[a].0@ != before[c].0@);
        } else {
            assert(before[a].0@ != after.last().0@);
        }
    }
}

/// Merges `overlay` into `base`, giving `overlay` precedence: where both are tables,
/// keys only in `overlay` are added and the value of a key in both is merged in turn;
/// otherwise `base` becomes a copy of `overlay`.
pub fn merge_toml_values(base: &mut ConfigValue, overlay: &ConfigValue)
    ensures
        final(base).model() == merge_models(old(base).model(), overlay.model()),
    decreases overlay,
{
    match overlay {
        ConfigValue::Table(overlay_table) => {
            if let ConfigValue::Table(base_table) = base {
                base_table.merge_from(overlay_table);
            } else {
                *base = overlay.deep_copy();
            }
        },
        _ => {
            *base = overlay.deep_copy();
        },
    }
}

/// A table with no keys.
pub fn default_empty_table() -> (r: ConfigValue)
    ensures
        r.model() == ConfigModel::Table(Map::empty()),
{
    ConfigValue::Table(ConfigTable::new())
}

/// The value found by following `path` through nested tables, if there is one.
pub open spec fn lookup(v: ConfigModel, path: Seq<Seq<char>>) -> Option<ConfigModel>
    decreases path.len(),
{
    if path.len() == 0 {
        Some(v)
    } else {
        match v {
            ConfigModel::Table(m) => if m.dom().contains(path[0]) {
                lookup(m[path[0]], path.drop_first())
            } else {
                None
            },
            _ => None,
        }
    }
}

/// Whether `overlay` leaves `path` alone when merged: it is a table along the way,
/// and somewhere along `path` it has no entry.
pub open spec fn leaves_untouched(overlay: ConfigModel, path: Seq<Seq<char>>) -> bool
    decreases path.len(),
{
    path.len() > 0 && match overlay {
        ConfigModel::Table(m) => !m.dom().contains(path[0]) || leaves_untouched(
            m[path[0]],
            path.drop_first(),
        ),
        _ => false,
    }
}

/// Overlay precedence: a value that is not a table, found in `overlay` at `path`,
/// is what the merge holds at `path`.
pub proof fn lemma_merge_overlay_wins(base: ConfigModel, overlay: ConfigModel, path: Seq<Seq<char>>)
    requires
        lookup(overlay, path) matches Some(v) && !(v is Table),
    ensures
        lookup(merge_models(base, overlay), path) == lookup(overlay, path),
    decreases path.len(),
{
    if path.len() > 0 {
        if let (ConfigModel::Table(b), ConfigModel::Table(o)) = (base, overlay) {
            let k = path[0];
            let merged = merge_models(base, overlay);
            assert(merged->Table_0.dom().contains(k));
            if b.dom().contains(k) {
                lemma_merge_overlay_wins(b[k], o[k], path.drop_first());
            }
        }
    }
}

/// Where `overlay` leaves `path` untouched, the merge holds what `base` holds there.
pub proof fn lemma_merge_keeps_base(base: ConfigModel, overlay: ConfigModel, path: Seq<Seq<char>>)
    requires
        leaves_untouched(overlay, path),
    ensures
        lookup(merge_models(base, overlay), path) == lookup(base, path),
    decreases path.len(),
{
    let k = path[0];
    let o = overlay->Table_0;
    lemma_untouched_absent(overlay, path);
    if let ConfigModel::Table(b) = base {
        if o.dom().contains(k) {
            if b.dom().contains(k) {
                lemma_merge_keeps_base(b[k], o[k], path.drop_first());
            } else {
                lemma_untouched_absent(o[k], path.drop_first());
            }
        }
    }
}

/// An overlay that leaves `path` untouched has nothing at `path`.
proof fn lemma_untouched_absent(overlay: ConfigModel, path: Seq<Seq<char>>)
    requires
        leaves_untouched(overlay, path),
    ensures
        lookup(overlay, path) is None,
    decreases path.len(),
{
    let m = overlay->Table_0;
    if m.dom().contains(path[0]) {
        lemma_untouched_absent(m[path[0]], path.drop_first());
    }
}

/// Merging a configuration into itself changes nothing.
pub proof fn lemma_merge_idempotent(v: ConfigModel)
    ensures
        merge_models(v, v) == v,
    decreases v,
{
    if let ConfigModel::Table(m) = v {
        assert forall|k: Seq<char>| m.dom().contains(k) implies merge_models(m[k], m[k]) == m[k] by {
            lemma_merge_idempotent(m[k]);
        }
        assert(merge_tables(m, m) =~= m);
    }
}

/// Merging the same overlay a second time changes nothing.
pub proof fn lemma_merge_twice(base: ConfigModel, overlay: ConfigModel)
    ensures
        merge_models(merge_models(base, overlay), overlay) == merge_models(base, overlay),
    decreases overlay,
{
    lemma_merge_idempotent(overlay);
    if let (ConfigModel::Table(b), ConfigModel::Table(o)) = (base, overlay) {
        let m = merge_tables(b, o);
        assert forall|k: Seq<char>| o.dom().contains(k) implies merge_models(m[k], o[k]) == m[k] by {
            if b.dom().contains(k) {
                lemma_merge_twice(b[k], o[k]);
            } else {
                lemma_merge_idempotent(o[k]);
            }
        }
        assert(merge_tables(m, o) =~= m);
    }
}

/// An empty overlay table leaves a table unchanged, and an empty base table takes
/// the overlay table as it is.
pub proof fn lemma_merge_empty_tables(m: Map<Seq<char>, ConfigModel>)
    ensures
        merge_tables(m, Map::empty()) == m,
        merge_tables(Map::empty(), m) == m,
{
    assert(merge_tables(m, Map::empty()) =~= m);
    assert(merge_tables(Map::empty(), m) =~= m);
}

/// Whether the bit pattern `bits` is a NaN.
pub open spec fn is_nan_bits(bits: u64) -> bool {
    bits & 0x7ff0_0000_0000_0000u64 == 0x7ff0_0000_0000_0000u64 && bits & 0x000f_ffff_ffff_ffffu64
        != 0
}

/// Whether two floats, given by their bit patterns, are equal as `f64`s: a NaN equals
/// nothing, and zero equals minus zero.
pub open spec fn float_bits_eq(a: u64, b: u64) -> bool {
    &&& !is_nan_bits(a)
    &&& !is_nan_bits(b)
    &&& (a == b || (a & 0x7fff_ffff_ffff_ffffu64 == 0 && b & 0x7fff_ffff_ffff_ffffu64 == 0))
}

/// Whether two configurations are equal as TOML values: same kind, equal scalars
/// (floats as `f64`s), arrays item by item, tables key by key.
pub open spec fn models_equal(a: ConfigModel, b: ConfigModel) -> bool
    decreases a,
{
    match (a, b) {
        (ConfigModel::String(x), ConfigModel::String(y)) => x == y,
        (ConfigModel::Integer(x), ConfigModel::Integer(y)) => x == y,
        (ConfigModel::Float(x), ConfigModel::Float(y)) => float_bits_eq(x, y),
        (ConfigModel::Boolean(x), ConfigModel::Boolean(y)) => x == y,
        (ConfigModel::Datetime(x), ConfigModel::Datetime(y)) => x == y,
        (ConfigModel::Array(xs), ConfigModel::Array(ys)) => xs.len() == ys.len() && forall|i: int|
            0 <= i < xs.len() ==> models_equal(#[trigger] xs[i], ys[i]),
        (ConfigModel::Table(m), ConfigModel::Table(n)) => m.dom() == n.dom() && forall|k: Seq<char>|
            #[trigger] m.dom().contains(k) ==> models_equal(m[k], n[k]),
        _ => false,
    }
}

/// The models of a sequence of values line up with the values.
proof fn lemma_items_model(items: Seq<ConfigValue>)
    ensures
        items_model(items).len() == items.len(),
        forall|i: int| 0 <= i < items.len() ==> #[trigger] items_model(items)[i] == items[i].model(),
    decreases items.len(),
{
    if items.len() > 0 {
        lemma_items_model(items.drop_last());
        assert forall|i: int| 0 <= i < items.len() implies #[trigger] items_model(items)[i]
            == items[i].model() by {
            if i < items.len() - 1 {
                assert(items.drop_last()[i] == items[i]);
            }
        }
    }
}

/// Whether two floats, given by their bit patterns, are equal as `f64`s.
fn float_eq(a: u64, b: u64) -> (r: bool)
    ensures
        r == float_bits_eq(a, b),
{
    let a_nan = a & 0x7ff0_0000_0000_0000u64 == 0x7ff0_0000_0000_0000u64 && a
        & 0x000f_ffff_ffff_ffffu64 != 0;
    let b_nan = b & 0x7ff0_0000_0000_0000u64 == 0x7ff0_0000_0000_0000u64 && b
        & 0x000f_ffff_ffff_ffffu64 != 0;
    !a_nan && !b_nan && (a == b || (a & 0x7fff_ffff_ffff_ffffu64 == 0 && b
        & 0x7fff_ffff_ffff_ffffu64 == 0))
}

impl ConfigValue {
    /// Whether the two values are equal as TOML values.
    pub fn equals(&self, other: &ConfigValue) -> (r: bool)
        ensures
            r == models_equal(self.model(), other.model()),
        decreases self,
    {
        match (self, other) {
            (ConfigValue::String(x), ConfigValue::String(y)) => *x == *y,
            (ConfigValue::Integer(x), ConfigValue::Integer(y)) => *x == *y,
            (ConfigValue::Float(x), ConfigValue::Float(y)) => float_eq(*x, *y),
            (ConfigValue::Boolean(x), ConfigValue::Boolean(y)) => *x == *y,
            (ConfigValue::Datetime(x), ConfigValue::Datetime(y)) => *x == *y,
            (ConfigValue::Array(xs), ConfigValue::Array(ys)) => {
                proof {
                    lemma_items_model(xs@);
                    lemma_items_model(ys@);
                }
                if xs.len() != ys.len() {
                    return false;
                }
                let n = xs.len();
                for i in 0..n
                    invariant
                        n == xs@.len(),
                        n == ys@.len(),
                        *self == ConfigValue::Array(*xs),
                        *other == ConfigValue::Array(*ys),
                        items_model(xs@).len() == n,
                        items_model(ys@).len() == n,
                        forall|a: int| 0 <= a < n ==> #[trigger] items_model(xs@)[a] == xs@[a].model(),
                        forall|a: int| 0 <= a < n ==> #[trigger] items_model(ys@)[a] == ys@[a].model(),
                        forall|a: int|
                            0 <= a < i ==> models_equal(#[trigger] items_model(xs@)[a], items_model(ys@)[a]),
                {
                    proof {
                        assert(decreases_to!(self => self->Array_0));
                        assert(decreases_to!(self->Array_0 => self->Array_0@));
                        assert(decreases_to!(xs@ => xs@[i as int]));
                    }
                    if !xs[i].equals(&ys[i]) {
                        let ghost xm = items_model(xs@);
                        let ghost ym = items_model(ys@);
                        assert(!models_equal(xm[i as int], ym[i as int]));
                        assert(self.model() == ConfigModel::Array(xm));
                        assert(other.model() == ConfigModel::Array(ym));
                        assert(!(forall|a: int| 0 <= a < xm.len() ==> models_equal(#[trigger] xm[a], ym[a])));
                        return false;
                    }
                }
                true
            },
            (ConfigValue::Table(x), ConfigValue::Table(y)) => x.equals(y),
            (ConfigValue::String(_), _) => false,
            (ConfigValue::Integer(_), _) => false,
            (ConfigValue::Float(_), _) => false,
            (ConfigValue::Boolean(_), _) => false,
            (ConfigValue::Datetime(_), _) => false,
            (ConfigValue::Array(_), _) => false,
            (ConfigValue::Table(_), _) => false,
        }
    }
}

impl ConfigTable {
    /// Whether the two tables hold the same keys with equal values.
    pub fn equals(&self, other: &ConfigTable) -> (r: bool)
        ensures
            r == models_equal(ConfigModel::Table(self.model()), ConfigModel::Table(other.model())),
        decreases self,
    {
        proof {
            use_type_invariant(self);
            use_type_invariant(other);
            lemma_entries_model(self.entries@);
            lemma_entries_model(other.entries@);
        }
        let ghost m = self.model();
        let ghost o = other.model();
        if self.entries.len() != other.entries.len() {
            return false;
        }
        let n = self.entries.len();
        for i in 0..n
            invariant
                n == self.entries@.len(),
                keys_distinct(self.entries@),
                keys_distinct(other.entries@),
                m == entries_model(self.entries@),
                o == entries_model(other.entries@),
                forall|a: int|
                    0 <= a < i ==> o.dom().contains(#[trigger] self.entries@[a].0@) && models_equal(
                        m[self.entries@[a].0@],
                        o[self.entries@[a].0@],
                    ),
        {
            proof {
                lemma_entries_model(self.entries@);
                lemma_entries_model(other.entries@);
                assert(decreases_to!(self => self.entries));
                assert(decreases_to!(self.entries => self.entries@));
                assert(decreases_to!(self.entries@ => self.entries@[i as int]));
            }
            match find_key(&other.entries, &self.entries[i].0) {
                None => {
                    assert(m.dom().contains(self.entries@[i as int].0@));
                    assert(!o.dom().contains(self.entries@[i as int].0@));
                    return false;
                },
                Some(j) => {
                    if !self.entries[i].1.equals(&other.entries[j].1) {
                        assert(m.dom().contains(self.entries@[i as int].0@));
                        return false;
                    }
                },
            }
        }
        proof {
            assert(m.dom().subset_of(o.dom())) by {
                assert forall|k: Seq<char>| m.dom().contains(k) implies o.dom().contains(k) by {
                    let a = choose|a: int| 0 <= a < self.entries@.len() && #[trigger] self.entries@[a].0@ == k;
                }
            }
            vstd::set_lib::lemma_subset_equality(m.dom(), o.dom());
            assert forall|k: Seq<char>| #[trigger] m.dom().contains(k) implies models_equal(m[k], o[k]) by {
                let a = choose|a: int| 0 <= a < self.entries@.len() && #[trigger] self.entries@[a].0@ == k;
            }
        }
        true
    }
}

impl PartialEq for ConfigValue {
    /// Equality of TOML values, as `toml::Value` has it.
    fn eq(&self, other: &ConfigValue) -> (r: bool) {
        self.equals(other)
    }
}

impl PartialEqSpecImpl for ConfigValue {
    open spec fn obeys_eq_spec() -> bool {
        true
    }

    open spec fn eq_spec(&self, other: &ConfigValue) -> bool {
        models_equal(self.model(), other.model())
    }
}

impl PartialEq for ConfigTable {
    /// Equality of tables, as `toml`'s map has it: the same keys with equal values.
    fn eq(&self, other: &ConfigTable) -> (r: bool) {
        self.equals(other)
    }
}

impl PartialEqSpecImpl for ConfigTable {
    open spec fn obeys_eq_spec() -> bool {
        true
    }

    open spec fn eq_spec(&self, other: &ConfigTable) -> bool {
        models_equal(ConfigModel::Table(self.model()), ConfigModel::Table(other.model()))
    }
}

} // verus!