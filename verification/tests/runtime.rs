use std::collections::HashMap;
use std::path::PathBuf;

use cfgy::error::ConfigError;
use cfgy::formats::toml_format::Toml;
use cfgy::from_value::FromValue;
use cfgy::load::{load_read, load_str, lookup_field, lookup_optional_field, required_field, table_of};
use cfgy::path::PathStack;
use cfgy::value::{Table, Value};

#[derive(Debug, PartialEq)]
struct Flat {
    name: String,
    port: u16,
}

impl FromValue for Flat {
    fn from_value(value: &Value, path: &mut PathStack) -> Result<Self, ConfigError> {
        let map = table_of(value, path)?;
        Ok(Flat { name: required_field(map, "name", path)?, port: required_field(map, "port", path)? })
    }
}

#[test]
fn derived_from_value_reads_a_flat_map() {
    let mut map = Table::new();
    map.insert("name".to_owned(), Value::Str("api".to_owned()));
    map.insert("port".to_owned(), Value::Int(8080));
    let flat = Flat::from_value(&Value::Table(map), &mut PathStack::new()).unwrap();
    assert_eq!(flat, Flat { name: "api".to_owned(), port: 8080 });
}

#[test]
fn load_str_parses_with_the_given_format() {
    let loaded: Flat = load_str("name = \"api\"\nport = 8080\n", &Toml).unwrap();
    assert_eq!(loaded, Flat { name: "api".to_owned(), port: 8080 });
}

#[derive(Debug, PartialEq)]
struct Server {
    host: String,
    port: u16,
}

impl FromValue for Server {
    fn from_value(value: &Value, path: &mut PathStack) -> Result<Self, ConfigError> {
        let map = table_of(value, path)?;
        Ok(Server { host: required_field(map, "host", path)?, port: required_field(map, "port", path)? })
    }
}

#[derive(Debug, PartialEq)]
struct Settings {
    kind: String,
    server: Server,
    replicas: Vec<Server>,
    features: HashMap<String, bool>,
    description: Option<String>,
    /// A native datetime in TOML, a string in JSON and YAML.
    deployed_at: String,
    log_file: Option<PathBuf>,
    timeout_secs: u64,
}

impl FromValue for Settings {
    fn from_value(value: &Value, path: &mut PathStack) -> Result<Self, ConfigError> {
        let map = table_of(value, path)?;
        Ok(Settings {
            kind: required_field(map, "type", path)?,
            server: required_field(map, "server", path)?,
            replicas: required_field(map, "replicas", path)?,
            features: required_field(map, "features", path)?,
            description: lookup_optional_field(map, "description", path)?.flatten(),
            deployed_at: required_field(map, "deployed_at", path)?,
            log_file: lookup_optional_field(map, "log_file", path)?.flatten(),
            timeout_secs: lookup_field(map, "timeout_secs", path)?.unwrap_or(30),
        })
    }
}

const SETTINGS_TOML: &str = "type = \"web\"
description = \"primary API\"
deployed_at = 1979-05-27T07:32:00Z

[server]
host = \"0.0.0.0\"
port = 8080

[[replicas]]
host = \"10.0.0.2\"
port = 8081

[[replicas]]
host = \"10.0.0.3\"
port = 8082

[features]
metrics = true
tracing = false
";

const SETTINGS_JSON: &str = r#"{
  "type": "web",
  "server": { "host": "0.0.0.0", "port": 8080 },
  "replicas": [
    { "host": "10.0.0.2", "port": 8081 },
    { "host": "10.0.0.3", "port": 8082 }
  ],
  "features": { "metrics": true, "tracing": false },
  "description": "primary API",
  "deployed_at": "1979-05-27T07:32:00Z",
  "log_file": null
}
"#;

const SETTINGS_YAML: &str = "type: web
server:
  host: 0.0.0.0
  port: 8080
replicas:
  - host: 10.0.0.2
    port: 8081
  - host: 10.0.0.3
    port: 8082
features:
  metrics: true
  tracing: false
description: primary API
deployed_at: \"1979-05-27T07:32:00Z\"
";

/// The fixture files, as a read of them gives them back.
fn read(path: &str) -> Result<String, String> {
    match path {
        "tests/fixtures/settings.toml" => Ok(SETTINGS_TOML.to_owned()),
        "tests/fixtures/settings.json" => Ok(SETTINGS_JSON.to_owned()),
        "tests/fixtures/settings.yaml" => Ok(SETTINGS_YAML.to_owned()),
        _ => Err("No such file or directory (os error 2)".to_owned()),
    }
}

fn load_from(path: &str) -> Result<Settings, ConfigError> {
    load_read(path, None, read(path))
}

fn load() -> Result<Settings, ConfigError> {
    load_from("tests/fixtures/settings.toml")
}

fn server(host: &str, port: u16) -> Server {
    Server { host: host.to_owned(), port }
}

fn expected_settings() -> Settings {
    Settings {
        kind: "web".to_owned(),
        server: server("0.0.0.0", 8080),
        replicas: vec![server("10.0.0.2", 8081), server("10.0.0.3", 8082)],
        features: HashMap::from([("metrics".to_owned(), true), ("tracing".to_owned(), false)]),
        description: Some("primary API".to_owned()),
        deployed_at: "1979-05-27T07:32:00Z".to_owned(),
        log_file: None,
        timeout_secs: 30,
    }
}

#[test]
fn load_reads_the_path_relative_to_the_working_directory() {
    assert_eq!(load().unwrap(), expected_settings());
}

#[test]
fn toml_fixture_loads() {
    assert_eq!(load_from("tests/fixtures/settings.toml").unwrap(), expected_settings());
}

#[test]
fn json_fixture_matches() {
    assert_eq!(load_from("tests/fixtures/settings.json").unwrap(), expected_settings());
}

#[test]
fn yaml_fixture_matches() {
    assert_eq!(load_from("tests/fixtures/settings.yaml").unwrap(), expected_settings());
}

#[test]
fn missing_file_is_an_io_error() {
    let err = load_from("tests/fixtures/does-not-exist.toml").unwrap_err();
    assert!(matches!(err, ConfigError::Io { ref path, .. } if path.ends_with("does-not-exist.toml")), "{err:?}");
}

#[test]
fn unknown_extension_is_an_unknown_format_error() {
    let err = load_read::<Settings>("cfgy-unknown-format.ini", None, Ok("type = web\n".to_owned()));
    assert!(matches!(err, Err(ConfigError::UnknownFormat { .. })), "{err:?}");
}

#[test]
fn explicit_format_wins_over_the_extension() {
    let loaded: Flat = load_read("flat.txt", Some("json"), Ok(r#"{"name": "api", "port": 8080}"#.to_owned())).unwrap();
    assert_eq!(loaded, Flat { name: "api".to_owned(), port: 8080 });
}

#[test]
fn malformed_source_is_a_parse_error_with_line_and_column() {
    let err = load_str::<Settings, _>("type = \"web\"\nport = = 1\n", &Toml).unwrap_err();
    assert!(matches!(err, ConfigError::Parse { format: "toml", line_col: Some((2, _)), .. }), "{err:?}");
}

const VALID_HEAD: &str = "type = \"web\"\nfeatures = {}\n";

#[test]
fn nested_error_path_includes_the_index() {
    let source = format!(
        "{VALID_HEAD}server = {{ host = \"a\", port = 1 }}\n\
         replicas = [{{ host = \"b\", port = 2 }}, {{ host = \"c\", port = \"eighty\" }}]\n"
    );
    let err = load_str::<Settings, _>(&source, &Toml).unwrap_err();
    assert_eq!(err.to_string(), "`replicas[1].port`: expected u16, found string");
}

#[test]
fn absent_nested_required_key_is_missing_with_its_full_path() {
    let source = format!("{VALID_HEAD}replicas = []\nserver = {{ host = \"a\" }}\n");
    let err = load_str::<Settings, _>(&source, &Toml).unwrap_err();
    assert!(matches!(err, ConfigError::Missing { ref path } if path == "server.port"), "{err:?}");
}

#[derive(Debug, PartialEq)]
struct Nullable {
    host: String,
    port: Option<u16>,
}

impl FromValue for Nullable {
    fn from_value(value: &Value, path: &mut PathStack) -> Result<Self, ConfigError> {
        let map = table_of(value, path)?;
        Ok(Nullable {
            host: required_field(map, "host", path)?,
            port: lookup_optional_field(map, "port", path)?.flatten(),
        })
    }
}

#[test]
fn null_is_none_for_option_and_a_type_error_for_required() {
    let map = |host: Value| {
        let mut t = Table::new();
        t.insert("host".to_owned(), host);
        t.insert("port".to_owned(), Value::Null);
        Value::Table(t)
    };
    let ok = Nullable::from_value(&map(Value::Str("a".to_owned())), &mut PathStack::new()).unwrap();
    assert_eq!(ok, Nullable { host: "a".to_owned(), port: None });

    let err = Nullable::from_value(&map(Value::Null), &mut PathStack::new()).unwrap_err();
    assert!(matches!(err, ConfigError::Type { ref path, found: "null", .. } if path == "host"), "{err:?}");
}

#[test]
fn a_root_that_is_not_a_table_is_a_type_error() {
    let err = load_str::<Flat, _>("[1, 2]", &cfgy::formats::json_format::Json).unwrap_err();
    assert_eq!(err.to_string(), "`<root>`: expected table, found sequence");
}
