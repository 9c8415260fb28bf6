use cfgy::error::ConfigError;
use cfgy::format::ParseError;
use cfgy::from_value::FromValue;
use cfgy::path::{PathStack, Segment};
use cfgy::value::{Datetime, Table, Value};

fn at(offset: usize, source: &str) -> Option<(usize, usize)> {
    ParseError { message: String::new(), offset: Some(offset) }.line_col(source)
}

#[test]
fn line_col() {
    assert_eq!(at(0, "a = 1"), Some((1, 1)));
    assert_eq!(at(4, "a = 1"), Some((1, 5)));
    assert_eq!(at(6, "a = 1\nb = x"), Some((2, 1)));
    assert_eq!(at(10, "a = 1\nb = x"), Some((2, 5)));
    assert_eq!(at(5, "a = 1"), Some((1, 6)));
    assert_eq!(at(6, "a = 1"), None);
    assert_eq!(ParseError { message: String::new(), offset: None }.line_col("a"), None);
}

#[test]
fn line_col_multibyte() {
    // "é" is two bytes but one column.
    assert_eq!(at(3, "é x"), Some((1, 3)));
    assert_eq!(at(1, "é x"), None);
}

#[test]
fn line_col_counts_lines_after_a_trailing_newline() {
    assert_eq!(at(2, "a\n"), Some((2, 1)));
    assert_eq!(at(3, "a\n\nb"), Some((3, 1)));
}

#[test]
fn renders_nested_path() {
    let mut path = PathStack::new();
    let rendered = path.with_key("database", |p| {
        p.with_key("replicas", |p| p.with_index(2, |p| p.with_key("port", |p| p.to_string())))
    });
    assert_eq!(rendered, "database.replicas[2].port");
    assert_eq!(path, PathStack::new());
}

#[test]
fn renders_root_index_and_empty() {
    let mut path = PathStack::new();
    assert_eq!(path.to_string(), "");
    assert_eq!(path.with_index(0, |p| p.with_key("a", |p| p.to_string())), "[0].a");
}

#[test]
fn with_key_restores_the_path() {
    let mut path = PathStack::new();
    path.with_key("a", |p| {
        p.with_index(7, |p| {
            assert_eq!(p.segments(), &[Segment::Key("a".to_owned()), Segment::Index(7)]);
        })
    });
    assert!(path.segments().is_empty());
}

#[test]
fn messages() {
    let mut path = PathStack::new();
    assert_eq!(ConfigError::missing(&path).to_string(), "missing required key `<root>`");
    path.with_key("port", |p| {
        assert_eq!(
            ConfigError::type_mismatch(p, "u16", &Value::Null).to_string(),
            "`port`: expected u16, found null (the key is present but has no value)"
        );
        assert_eq!(
            ConfigError::type_mismatch(p, "u16", &Value::Str(String::new())).to_string(),
            "`port`: expected u16, found string"
        );
        assert_eq!(ConfigError::out_of_range(p, 70000, "u16").to_string(), "`port`: 70000 is out of range for u16");
    });
}

#[test]
fn message_of_every_variant() {
    let path = PathStack::new();
    assert_eq!(
        ConfigError::length(&path, 2, 1).to_string(),
        "`<root>`: expected a sequence of 2 items, found 1"
    );
    assert_eq!(ConfigError::out_of_range(&path, -5, "u8").to_string(), "`<root>`: -5 is out of range for u8");
    let io = ConfigError::Io { path: "a.toml".to_owned(), message: "denied".to_owned() };
    assert_eq!(io.to_string(), "failed to read `a.toml`: denied");
    let unknown = ConfigError::UnknownFormat { path: "a.ini".to_owned(), message: "no".to_owned() };
    assert_eq!(unknown.to_string(), "cannot pick a format for `a.ini`: no");
    let parse = ConfigError::Parse { format: "toml", message: "bad".to_owned(), line_col: Some((2, 5)) };
    assert_eq!(parse.to_string(), "invalid toml at line 2, column 5: bad");
    let parse = ConfigError::Parse { format: "json", message: "bad".to_owned(), line_col: None };
    assert_eq!(parse.to_string(), "invalid json: bad");
}

fn conv<T: FromValue>(value: &Value) -> Result<T, ConfigError> {
    T::from_value(value, &mut PathStack::new())
}

#[test]
fn integers() {
    assert!(matches!(conv::<u16>(&Value::Int(i64::MAX)), Err(ConfigError::OutOfRange { target: "u16", .. })));
    assert!(matches!(conv::<u32>(&Value::Int(-1)), Err(ConfigError::OutOfRange { value: -1, .. })));
    assert_eq!(conv::<u16>(&Value::Int(i64::from(u16::MAX))).unwrap(), u16::MAX);
    assert_eq!(conv::<i128>(&Value::Int(i64::MIN)).unwrap(), i128::from(i64::MIN));
    assert!(matches!(
        conv::<i32>(&Value::Float(1.0f64.to_bits())),
        Err(ConfigError::Type { expected: "i32", found: "float", .. })
    ));
    assert!(matches!(conv::<i32>(&Value::Str("1".into())), Err(ConfigError::Type { found: "string", .. })));
}

#[test]
fn scalars_convert_strictly() {
    assert_eq!(conv::<bool>(&Value::Bool(true)).unwrap(), true);
    assert!(matches!(conv::<bool>(&Value::Int(1)), Err(ConfigError::Type { expected: "bool", found: "integer", .. })));
    assert_eq!(conv::<String>(&Value::Str("a".into())).unwrap(), "a");
    assert_eq!(conv::<String>(&Value::Datetime(Datetime("1979-05-27".into()))).unwrap(), "1979-05-27");
    assert!(matches!(conv::<String>(&Value::Int(1)), Err(ConfigError::Type { expected: "string", .. })));
    assert_eq!(conv::<char>(&Value::Str("x".into())).unwrap(), 'x');
    assert!(matches!(conv::<char>(&Value::Str("xy".into())), Err(ConfigError::Type { expected: "char", .. })));
    assert_eq!(conv::<Datetime>(&Value::Datetime(Datetime("t".into()))).unwrap(), Datetime("t".into()));
    assert_eq!(conv::<std::path::PathBuf>(&Value::Str("a/b".into())).unwrap(), std::path::PathBuf::from("a/b"));
    assert!(matches!(conv::<std::path::PathBuf>(&Value::Int(1)), Err(ConfigError::Type { expected: "path", .. })));
}

#[test]
fn containers_convert_their_items_at_their_paths() {
    assert_eq!(conv::<Option<u8>>(&Value::Null).unwrap(), None);
    assert_eq!(conv::<Option<u8>>(&Value::Int(3)).unwrap(), Some(3));
    assert_eq!(*conv::<Box<u8>>(&Value::Int(3)).unwrap(), 3);
    let items = Value::Sequence(vec![Value::Int(1), Value::Int(2)]);
    assert_eq!(conv::<Vec<u8>>(&items).unwrap(), vec![1, 2]);
    let bad = Value::Sequence(vec![Value::Int(1), Value::Int(300)]);
    assert_eq!(conv::<Vec<u8>>(&bad).unwrap_err().to_string(), "`[1]`: 300 is out of range for u8");
    let mut table = Table::new();
    table.insert("a".to_owned(), Value::Bool(true));
    table.insert("b".to_owned(), Value::Int(1));
    let err = conv::<std::collections::HashMap<String, bool>>(&Value::Table(table)).unwrap_err();
    assert_eq!(err.to_string(), "`b`: expected bool, found integer");
}

#[test]
fn value_kinds() {
    assert_eq!(Value::Null.kind(), "null");
    assert_eq!(Value::Sequence(vec![]).kind(), "sequence");
    assert_eq!(Value::Table(Table::new()).kind(), "table");
    assert_eq!(Value::Datetime(Datetime(String::new())).kind(), "datetime");
}

#[test]
fn table_keeps_insertion_order_and_replaces_in_place() {
    let mut table = Table::new();
    assert_eq!(table.insert("z".to_owned(), Value::Int(1)), None);
    assert_eq!(table.insert("a".to_owned(), Value::Int(2)), None);
    assert_eq!(table.insert("z".to_owned(), Value::Int(3)), Some(Value::Int(1)));
    assert_eq!(table.keys(), vec!["z".to_owned(), "a".to_owned()]);
    assert_eq!(table.get("z"), Some(&Value::Int(3)));
    assert_eq!(table.len(), 2);
}

#[test]
fn tuples_convert_by_position_and_length() {
    let pair = Value::Sequence(vec![Value::Int(1), Value::Str("a".into())]);
    assert_eq!(conv::<(u8, String)>(&pair).unwrap(), (1, "a".to_owned()));
    let short = Value::Sequence(vec![Value::Int(1)]);
    assert_eq!(conv::<(u8, String)>(&short).unwrap_err().to_string(), "`<root>`: expected a sequence of 2 items, found 1");
    let bad = Value::Sequence(vec![Value::Int(1), Value::Int(2), Value::Int(3)]);
    assert_eq!(conv::<(u8, String, u8)>(&bad).unwrap_err().to_string(), "`[1]`: expected string, found integer");
    let four = Value::Sequence(vec![Value::Int(1), Value::Int(2), Value::Int(3), Value::Bool(true)]);
    assert_eq!(conv::<(u8, u16, u32, bool)>(&four).unwrap(), (1, 2, 3, true));
    assert!(matches!(conv::<(u8, u8)>(&Value::Int(1)), Err(ConfigError::Type { expected: "sequence", .. })));
}

#[test]
fn pointers_and_collections_convert_like_their_contents() {
    assert_eq!(*conv::<std::rc::Rc<u8>>(&Value::Int(7)).unwrap(), 7);
    assert_eq!(*conv::<std::sync::Arc<bool>>(&Value::Bool(false)).unwrap(), false);
    let items = Value::Sequence(vec![Value::Int(3), Value::Int(4), Value::Int(3)]);
    assert_eq!(conv::<std::collections::VecDeque<u8>>(&items).unwrap(), std::collections::VecDeque::from([3, 4, 3]));
    assert_eq!(conv::<std::collections::HashSet<u8>>(&items).unwrap(), std::collections::HashSet::from([3, 4]));
    let mut table = Table::new();
    table.insert("b".to_owned(), Value::Int(2));
    table.insert("a".to_owned(), Value::Int(1));
    let map = conv::<std::collections::BTreeMap<String, u8>>(&Value::Table(table)).unwrap();
    assert_eq!(map.into_iter().collect::<Vec<_>>(), vec![("a".to_owned(), 1), ("b".to_owned(), 2)]);
    let bad = Value::Sequence(vec![Value::Int(1), Value::Str("x".into())]);
    assert_eq!(conv::<std::collections::VecDeque<u8>>(&bad).unwrap_err().to_string(), "`[1]`: expected u8, found string");
}

#[test]
fn integers_are_never_wrapped_and_nothing_else_converts_into_them() {
    assert_eq!(conv::<u8>(&Value::Int(255)).unwrap(), 255);
    assert_eq!(conv::<u8>(&Value::Int(256)).unwrap_err().to_string(), "`<root>`: 256 is out of range for u8");
    assert_eq!(conv::<i8>(&Value::Int(-129)).unwrap_err().to_string(), "`<root>`: -129 is out of range for i8");
    assert_eq!(conv::<u64>(&Value::Int(-1)).unwrap_err().to_string(), "`<root>`: -1 is out of range for u64");
    assert_eq!(conv::<u64>(&Value::Float(1.0f64.to_bits())).unwrap_err().to_string(), "`<root>`: expected u64, found float");
    assert_eq!(conv::<u64>(&Value::Bool(true)).unwrap_err().to_string(), "`<root>`: expected u64, found bool");
}

#[test]
fn only_booleans_are_bool() {
    assert_eq!(conv::<bool>(&Value::Int(0)).unwrap_err().to_string(), "`<root>`: expected bool, found integer");
    assert_eq!(conv::<bool>(&Value::Str("true".into())).unwrap_err().to_string(), "`<root>`: expected bool, found string");
}

#[test]
fn every_char_boundary_maps_back_to_its_line_and_column() {
    let source = "é\nab\ncé";
    let starts: Vec<usize> = source.char_indices().map(|(i, _)| i).chain(std::iter::once(source.len())).collect();
    let expected = [(1, 1), (1, 2), (2, 1), (2, 2), (2, 3), (3, 1), (3, 2), (3, 3)];
    for (offset, want) in starts.iter().zip(expected) {
        assert_eq!(at(*offset, source), Some(want), "offset {offset}");
    }
}

#[test]
fn maps_hold_every_entry_converted_under_its_key() {
    let mut table = Table::new();
    table.insert("b".to_owned(), Value::Int(2));
    table.insert("a".to_owned(), Value::Int(1));
    let value = Value::Table(table);
    let map = conv::<std::collections::HashMap<String, u8>>(&value).unwrap();
    assert_eq!(map, std::collections::HashMap::from([("a".to_owned(), 1), ("b".to_owned(), 2)]));
    let ordered = conv::<indexmap::IndexMap<String, u8>>(&value).unwrap();
    assert_eq!(ordered.into_iter().collect::<Vec<_>>(), vec![("b".to_owned(), 2), ("a".to_owned(), 1)]);
    let Value::Table(table) = &value else { unreachable!() };
    assert_eq!(table.len(), 2);
}

#[test]
fn nested_scopes_hold_their_segments_root_first() {
    let mut path = PathStack::new();
    let seen = path.with_key("a", |p| {
        p.with_index(3, |p| p.with_key("b", |p| p.segments().to_vec()))
    });
    assert_eq!(seen, vec![Segment::Key("a".to_owned()), Segment::Index(3), Segment::Key("b".to_owned())]);
    assert!(path.segments().is_empty());
}
