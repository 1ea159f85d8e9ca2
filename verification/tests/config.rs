use codex_core::config::{default_empty_table, merge_toml_values, ConfigTable, ConfigValue};
use codex_core::document::{parse_config, read_config_from_path, ConfigFileRead, ConfigReadError};
use codex_core::loader::{apply_managed_layers, load_config_layers_from};

fn parse(text: &str) -> ConfigValue {
    parse_config(text).ok().expect("valid TOML")
}

fn table(value: &ConfigValue) -> &ConfigTable {
    match value {
        ConfigValue::Table(t) => t,
        _ => panic!("table expected"),
    }
}

fn string(text: &str) -> ConfigValue {
    ConfigValue::String(text.to_string())
}

#[test]
fn merges_managed_config_layer_on_top() {
    let base = parse("foo = 1\n\n[nested]\nvalue = \"base\"\n");
    let managed = parse("foo = 2\n\n[nested]\nvalue = \"managed_config\"\nextra = true\n");
    let layers = load_config_layers_from(Some(base), None, Some(managed), None);
    let loaded = apply_managed_layers(layers);
    let table = table(&loaded);
    assert_eq!(table.get("foo"), Some(&ConfigValue::Integer(2)));
    let nested = self::table(table.get("nested").expect("nested"));
    assert_eq!(nested.get("value"), Some(&string("managed_config")));
    assert_eq!(nested.get("extra"), Some(&ConfigValue::Boolean(true)));
}

#[test]
fn returns_empty_when_all_layers_missing() {
    let layers = load_config_layers_from(None, None, None, None);
    assert!(table(&layers.base).is_empty(), "expected empty base layer when configs missing");
    assert!(layers.managed_config.is_none());
    let loaded = apply_managed_layers(layers);
    assert!(table(&loaded).is_empty(), "expected empty table when configs missing");
}

#[test]
fn managed_preferences_take_highest_precedence() {
    let base = parse("[nested]\nvalue = \"base\"\n");
    let managed = parse("[nested]\nvalue = \"managed_config\"\nflag = true\n");
    let preferences = parse("\n[nested]\nvalue = \"managed\"\nflag = false\n");
    let layers = load_config_layers_from(Some(base), None, Some(managed), Some(preferences));
    let loaded = apply_managed_layers(layers);
    let nested = table(table(&loaded).get("nested").expect("nested table"));
    assert_eq!(nested.get("value"), Some(&string("managed")));
    assert_eq!(nested.get("flag"), Some(&ConfigValue::Boolean(false)));
}

#[test]
fn repo_config_overrides_user_config() {
    let user = parse("notify = [\"global\"]");
    let repo = parse("notify = [\"repo\"]");
    let layers = load_config_layers_from(Some(user), Some(repo), None, None);
    assert_eq!(
        table(&layers.base).get("notify"),
        Some(&ConfigValue::Array(vec![string("repo")]))
    );
}

#[test]
fn repo_config_without_git_root_uses_current_dir() {
    let user = parse("notify = [\"global\"]");
    let repo = parse("notify = [\"local\"]");
    let layers = load_config_layers_from(Some(user), Some(repo), None, None);
    assert_eq!(
        table(&layers.base).get("notify"),
        Some(&ConfigValue::Array(vec![string("local")]))
    );
}

#[test]
fn merge_keeps_base_keys_and_adds_new_ones() {
    let mut base = parse("a = 1\n[t]\nx = 1\ny = 2\n");
    let overlay = parse("b = 2\n[t]\ny = 3\nz = 4\n");
    merge_toml_values(&mut base, &overlay);
    let top = table(&base);
    assert_eq!(top.len(), 3);
    assert_eq!(top.get("a"), Some(&ConfigValue::Integer(1)));
    assert_eq!(top.get("b"), Some(&ConfigValue::Integer(2)));
    let t = table(top.get("t").unwrap());
    assert_eq!(t.len(), 3);
    assert_eq!(t.get("x"), Some(&ConfigValue::Integer(1)));
    assert_eq!(t.get("y"), Some(&ConfigValue::Integer(3)));
    assert_eq!(t.get("z"), Some(&ConfigValue::Integer(4)));
}

#[test]
fn non_table_overlay_replaces_base() {
    let mut base = parse("[t]\nx = 1\n");
    let overlay = parse("t = [1, 2]\n");
    merge_toml_values(&mut base, &overlay);
    assert_eq!(
        table(&base).get("t"),
        Some(&ConfigValue::Array(vec![ConfigValue::Integer(1), ConfigValue::Integer(2)]))
    );

    let mut scalar = ConfigValue::Integer(5);
    merge_toml_values(&mut scalar, &overlay);
    assert_eq!(table(&scalar).len(), 1);

    let mut table_base = parse("k = 1");
    merge_toml_values(&mut table_base, &ConfigValue::Boolean(true));
    assert_eq!(table_base, ConfigValue::Boolean(true));
}

#[test]
fn table_overlay_replaces_scalar_in_base() {
    let mut base = parse("t = \"plain\"\n");
    let overlay = parse("[t]\nx = 1\n");
    merge_toml_values(&mut base, &overlay);
    let t = table(table(&base).get("t").unwrap());
    assert_eq!(t.get("x"), Some(&ConfigValue::Integer(1)));
}

#[test]
fn merging_a_config_into_itself_changes_nothing() {
    let original = parse("a = 1\nf = 1.5\nd = 1979-05-27\n[t]\nx = \"s\"\n[t.u]\ny = [true]\n");
    let mut merged = original.deep_copy();
    merge_toml_values(&mut merged, &original);
    let top = table(&merged);
    assert_eq!(top.len(), 4);
    assert_eq!(top.get("f"), Some(&ConfigValue::Float(1.5f64.to_bits())));
    assert_eq!(top.get("d"), Some(&ConfigValue::Datetime("1979-05-27".to_string())));
    let u = table(table(top.get("t").unwrap()).get("u").unwrap());
    assert_eq!(u.get("y"), Some(&ConfigValue::Array(vec![ConfigValue::Boolean(true)])));
}

#[test]
fn empty_tables_are_neutral() {
    let mut base = parse("a = 1\n");
    merge_toml_values(&mut base, &default_empty_table());
    assert_eq!(table(&base).len(), 1);
    let mut empty = default_empty_table();
    merge_toml_values(&mut empty, &parse("b = 2\n"));
    assert_eq!(table(&empty).get("b"), Some(&ConfigValue::Integer(2)));
    assert_eq!(table(&empty).len(), 1);
}

#[test]
fn table_insert_replaces_existing_key() {
    let mut t = ConfigTable::new();
    assert!(t.insert("k".to_string(), ConfigValue::Integer(1)).is_none());
    assert_eq!(t.insert("k".to_string(), ConfigValue::Integer(2)), Some(ConfigValue::Integer(1)));
    assert_eq!(t.len(), 1);
    assert_eq!(t.get("k"), Some(&ConfigValue::Integer(2)));
    assert!(t.get("missing").is_none());
    assert_eq!(t.entries().len(), 1);
}

#[test]
fn merging_the_same_overlay_twice_changes_nothing() {
    let overlay = parse("a = 2\n[t]\nx = 5\nnew = \"n\"\n");
    let mut once = parse("a = 1\nb = 1\n[t]\nx = 1\ny = 1\n");
    merge_toml_values(&mut once, &overlay);
    let mut twice = once.deep_copy();
    merge_toml_values(&mut twice, &overlay);
    let t = table(table(&twice).get("t").unwrap());
    assert_eq!(table(&twice).len(), 3);
    assert_eq!(t.len(), 3);
    assert_eq!(t.get("x"), Some(&ConfigValue::Integer(5)));
    assert_eq!(t.get("y"), Some(&ConfigValue::Integer(1)));
    assert_eq!(t.get("new"), Some(&string("n")));
    assert_eq!(table(&twice).get("a"), Some(&ConfigValue::Integer(2)));
}

#[test]
fn parse_config_reads_every_kind_of_value() {
    let v = parse("s = \"x\"\ni = -3\nf = 0.5\nb = false\nd = 1979-05-27T07:32:00Z\na = [1, \"two\"]\n[t.u]\nk = 1\n");
    let top = table(&v);
    assert_eq!(top.len(), 7);
    assert_eq!(top.get("s"), Some(&string("x")));
    assert_eq!(top.get("i"), Some(&ConfigValue::Integer(-3)));
    assert_eq!(top.get("f"), Some(&ConfigValue::Float(0.5f64.to_bits())));
    assert_eq!(top.get("b"), Some(&ConfigValue::Boolean(false)));
    assert_eq!(top.get("d"), Some(&ConfigValue::Datetime("1979-05-27T07:32:00Z".to_string())));
    assert_eq!(
        top.get("a"),
        Some(&ConfigValue::Array(vec![ConfigValue::Integer(1), string("two")]))
    );
    let u = table(table(top.get("t").unwrap()).get("u").unwrap());
    assert_eq!(u.get("k"), Some(&ConfigValue::Integer(1)));
}

#[test]
fn parse_config_rejects_invalid_toml() {
    assert!(parse_config("a = ").is_err());
    assert!(parse_config("[t]\nk = 1\nk = 2\n").is_err());
}

#[test]
fn empty_document_is_an_empty_table() {
    assert!(table(&parse("")).is_empty());
}

#[test]
fn reading_a_config_file() {
    match read_config_from_path(ConfigFileRead::Contents("k = 1".to_string())) {
        Ok(Some(v)) => assert_eq!(table(&v).get("k"), Some(&ConfigValue::Integer(1))),
        _ => panic!("expected a layer"),
    }
    assert!(matches!(read_config_from_path(ConfigFileRead::NotFound), Ok(None)));
    assert!(matches!(
        read_config_from_path(ConfigFileRead::Contents("= oops".to_string())),
        Err(ConfigReadError::Parse(_))
    ));
    let failure = std::io::Error::new(std::io::ErrorKind::PermissionDenied, "denied");
    match read_config_from_path(ConfigFileRead::Failed(failure)) {
        Err(ConfigReadError::Io(e)) => assert_eq!(e.kind(), std::io::ErrorKind::PermissionDenied),
        _ => panic!("expected the read error"),
    }
}

#[test]
fn repo_config_without_user_config_is_the_base() {
    let repo = parse("notify = [\"local\"]");
    let layers = load_config_layers_from(None, Some(repo), None, None);
    assert_eq!(
        table(&layers.base).get("notify"),
        Some(&ConfigValue::Array(vec![string("local")]))
    );
}

#[test]
fn equality_follows_toml_values() {
    // Tables compare key by key, whatever order their entries were inserted in.
    assert_eq!(parse("a = 1\nb = 2\n"), parse("b = 2\na = 1\n"));
    assert_ne!(parse("a = 1\n"), parse("a = 1\nb = 2\n"));
    assert_ne!(parse("a = 1\n"), parse("a = 2\n"));
    // Floats compare as f64: NaN equals nothing, zero equals minus zero.
    let nan = ConfigValue::Float(f64::NAN.to_bits());
    assert_ne!(nan, ConfigValue::Float(f64::NAN.to_bits()));
    assert_eq!(ConfigValue::Float(0.0f64.to_bits()), ConfigValue::Float((-0.0f64).to_bits()));
    assert_ne!(ConfigValue::Float(1.0f64.to_bits()), ConfigValue::Float(2.0f64.to_bits()));
    assert_ne!(ConfigValue::Integer(1), ConfigValue::Boolean(true));
    assert_eq!(parse("x = [1, 2]"), parse("x = [1, 2]"));
    assert_ne!(parse("x = [1, 2]"), parse("x = [1]"));
}
