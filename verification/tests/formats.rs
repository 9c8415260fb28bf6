use cfgy::format::Format;
use cfgy::formats::json_format::{offset, Json};
use cfgy::formats::toml_format::Toml;
use cfgy::formats::yaml_format::{byte_offset, Yaml};
use cfgy::formats::{feature_name, select};
use cfgy::value::{Datetime, Table, Value};

fn name(explicit: Option<&str>, path: &str, source: &str) -> Result<&'static str, String> {
    feature_name(explicit, path, source).map_err(|e| e.message)
}

#[test]
fn precedence() {
    assert_eq!(name(Some("yml"), "app.toml", ""), Ok("yaml"));
    assert_eq!(name(None, "app.toml", "{"), Ok("toml"));
    assert_eq!(
        name(None, "dir.d/app.JSON", ""),
        Err("unknown extension `.JSON`, expected .toml, .json, .yaml, or .yml".to_owned())
    );
}

#[test]
fn unknown_is_an_error() {
    assert!(name(Some("ini"), "app.toml", "").unwrap_err().contains("unknown format `ini`"));
    assert!(name(None, "app.ini", "{").unwrap_err().contains("unknown extension `.ini`"));
}

#[test]
fn sniffs_only_without_extension() {
    assert_eq!(name(None, "config", "  \n{\"a\": 1}"), Ok("json"));
    assert_eq!(name(None, "config", "\n---\na: 1"), Ok("yaml"));
    assert!(name(None, "config", "a = 1").unwrap_err().contains("does not look like"));
}

#[test]
fn sniffing_is_never_a_guess_when_there_is_an_extension() {
    assert_eq!(name(None, "config.yml", "{\"a\": 1}"), Ok("yaml"));
    assert_eq!(
        name(None, "config", "   "),
        Err("no file extension and the content does not look like JSON or YAML".to_owned())
    );
    assert_eq!(name(Some("toml"), "config", "{"), Ok("toml"));
}

#[test]
fn select_gives_the_named_format() {
    assert_eq!(select(Some("json"), "a.toml", "").unwrap().name(), "json");
    assert_eq!(select(None, "a.yaml", "").unwrap().name(), "yaml");
    assert_eq!(select(None, "a.toml", "").unwrap().name(), "toml");
    assert_eq!(select(None, "a.cfg", "").err().unwrap().to_string(), "unknown extension `.cfg`, expected .toml, .json, .yaml, or .yml");
}

fn json(source: &str) -> Value {
    Json.parse(source).unwrap()
}

#[test]
fn numbers() {
    assert_eq!(json("8080"), Value::Int(8080));
    assert_eq!(json("-1"), Value::Int(-1));
    assert_eq!(json("8080.0"), Value::Float(8080.0f64.to_bits()));
    assert_eq!(json("1e3"), Value::Float(1000.0f64.to_bits()));
    let err = Json.parse("18446744073709551615").unwrap_err();
    assert_eq!(err.message, "integer 18446744073709551615 is out of range for i64");
}

#[test]
fn scalars_and_order() {
    assert_eq!(json("null"), Value::Null);
    let Value::Table(map) = json(r#"{"z": [true, "s"], "a": {}}"#) else { panic!("expected a map") };
    assert_eq!(map.keys(), ["z", "a"]);
    assert_eq!(map.get("z").unwrap(), &Value::Sequence(vec![Value::Bool(true), Value::Str("s".to_owned())]));
    assert_eq!(map.get("a").unwrap(), &Value::Table(Table::new()));
}

#[test]
fn json_malformed_offset() {
    let source = "{\n  \"a\": 1,\n  \"b\": x\n}";
    let err = Json.parse(source).unwrap_err();
    assert_eq!(err.offset, source.find('x'));
    assert_eq!(err.line_col(source), Some((3, 8)));
    assert_eq!(err.message, "expected value");
}

#[test]
fn json_line_and_column_to_byte_offset() {
    assert_eq!(offset("ab\ncd", 2, 2), Some(4));
    assert_eq!(offset("é\nx", 2, 1), Some(3));
    assert_eq!(offset("ab", 3, 1), Some(2));
    assert_eq!(offset("ab", 0, 1), None);
}

fn toml_map(source: &str) -> Table {
    match Toml.parse(source).unwrap() {
        Value::Table(map) => map,
        other => panic!("expected a map, got {other:?}"),
    }
}

#[test]
fn int_vs_float() {
    assert_eq!(toml_map("port = 8080").get("port").unwrap(), &Value::Int(8080));
    assert_eq!(toml_map("ratio = 1.0").get("ratio").unwrap(), &Value::Float(1.0f64.to_bits()));
}

#[test]
fn datetime() {
    assert_eq!(
        toml_map("at = 1979-05-27T07:32:00Z").get("at").unwrap(),
        &Value::Datetime(Datetime("1979-05-27T07:32:00Z".to_owned()))
    );
}

#[test]
fn toml_nested_and_ordered() {
    let map = toml_map("z = 1\na = [true, \"s\"]\n[m]\ny = 2\nb = 3");
    assert_eq!(map.keys(), ["z", "a", "m"]);
    assert_eq!(map.get("a").unwrap(), &Value::Sequence(vec![Value::Bool(true), Value::Str("s".to_owned())]));
    let Value::Table(m) = map.get("m").unwrap() else { panic!("expected a table") };
    assert_eq!(m.keys(), ["y", "b"]);
}

#[test]
fn toml_malformed_offset() {
    let source = "a = 1\nb = = 2";
    let err = Toml.parse(source).unwrap_err();
    assert_eq!(err.line_col(source), Some((2, 5)), "{err:?}");
}

fn yaml(source: &str) -> Value {
    Yaml.parse(source).unwrap()
}

#[test]
fn scalars() {
    assert_eq!(yaml("8080"), Value::Int(8080));
    assert_eq!(yaml("1.0"), Value::Float(1.0f64.to_bits()));
    assert_eq!(yaml("true"), Value::Bool(true));
    assert_eq!(yaml("~"), Value::Null);
    assert_eq!(yaml("'1'"), Value::Str("1".to_owned()));
    assert_eq!(yaml("!custom 3"), Value::Int(3));
}

#[test]
fn yaml_nested_and_ordered() {
    let Value::Table(map) = yaml("z: [a, 2]\na:\n  y: 1\n  b: null\n") else { panic!("expected a map") };
    assert_eq!(map.keys(), ["z", "a"]);
    assert_eq!(map.get("z").unwrap(), &Value::Sequence(vec![Value::Str("a".to_owned()), Value::Int(2)]));
    let Value::Table(inner) = map.get("a").unwrap() else { panic!("expected a map") };
    assert_eq!(inner.keys(), ["y", "b"]);
    assert_eq!(inner.get("b").unwrap(), &Value::Null);
}

#[test]
fn documents() {
    assert_eq!(yaml(""), Value::Table(Table::new()));
    assert_eq!(yaml("# nothing\n"), Value::Table(Table::new()));
    assert_eq!(yaml("---\n"), Value::Null);
    assert_eq!(yaml("--- 1\n--- 2\n"), Value::Int(1));
}

#[test]
fn rejects_non_string_keys_and_bad_values() {
    assert_eq!(Yaml.parse("1: a").unwrap_err().message, "mapping keys must be strings, found integer");
    assert_eq!(Yaml.parse("!!int foo").unwrap_err().message, "scalar does not match its tag");
}

#[test]
fn yaml_malformed_offset() {
    // The marker counts chars, so the multibyte `é` checks the byte conversion.
    let source = "é: \"x\ny: '";
    let err = Yaml.parse(source).unwrap_err();
    assert_eq!(err.line_col(source), Some((1, 4)), "{err:?}");
}

#[test]
fn char_index_to_byte_offset() {
    assert_eq!(byte_offset("éa", 1), Some(2));
    assert_eq!(byte_offset("éa", 2), Some(3));
    assert_eq!(byte_offset("éa", 3), None);
}

#[test]
fn format_names() {
    assert_eq!(Toml.name(), "toml");
    assert_eq!(Json.name(), "json");
    assert_eq!(Yaml.name(), "yaml");
}

#[test]
fn the_explicit_name_decides_alone() {
    assert_eq!(name(Some("json"), "a.toml", "---"), Ok("json"));
    assert_eq!(name(Some("json"), "a", "key = 1"), Ok("json"));
    assert_eq!(name(Some("xml"), "a.json", "{}"), Err("unknown format `xml`, expected toml, json, or yaml".to_owned()));
}

#[test]
fn an_extension_is_never_second_guessed() {
    for source in ["{\"a\": 1}", "---\na: 1", "a = 1", ""] {
        assert_eq!(name(None, "app.toml", source), Ok("toml"));
        assert!(name(None, "app.conf", source).is_err());
    }
}
