use cfgy::derive::check::{check_fields, check_text};
use cfgy::derive::codegen::expand;
use cfgy::derive::plan::{build, ErrorSite, FieldPlan, StructPlan};
use cfgy::derive::syntax::{
    ArgumentsShape, ConfigOption, DataShape, FieldShape, FieldsShape, GenericArgShape, ItemShape, OptionValue,
    PathSegmentShape, TypeShape, TypedArg,
};
use cfgy::from_value::FromValue;
use cfgy::path::PathStack;
use cfgy::value::{Table, Value};

/// The type `name` with the type arguments `args`, as its last path segment.
fn generic(name: &str, args: Vec<TypedArg>) -> TypedArg {
    let text = if args.is_empty() {
        name.to_owned()
    } else {
        let inner: Vec<String> = args.iter().map(|a| a.text.clone()).collect();
        format!("{name} < {} >", inner.join(" , "))
    };
    let arguments = if args.is_empty() {
        ArgumentsShape::Plain
    } else {
        ArgumentsShape::AngleBracketed(args.into_iter().map(GenericArgShape::Type).collect())
    };
    TypedArg {
        ty: TypeShape::Path { qualified: false, segments: vec![PathSegmentShape { ident: name.to_owned(), arguments }] },
        text,
    }
}

fn ty(name: &str) -> TypedArg {
    generic(name, vec![])
}

fn tuple(elems: Vec<TypedArg>) -> TypedArg {
    let inner: Vec<String> = elems.iter().map(|a| a.text.clone()).collect();
    let text = format!("({})", inner.join(" , "));
    TypedArg { ty: TypeShape::Tuple(elems.into_iter().map(|e| e.ty).collect()), text }
}

fn field(ident: &str, ty: TypedArg) -> FieldShape {
    FieldShape { ident: ident.to_owned(), ty, options: vec![] }
}

fn with(mut f: FieldShape, name: &str, value: OptionValue) -> FieldShape {
    f.options.push(ConfigOption { name: name.to_owned(), value });
    f
}

fn string(value: &str) -> OptionValue {
    OptionValue::Str { value: value.to_owned(), text: format!("{value:?}") }
}

fn item(ident: &str, fields: Vec<FieldShape>) -> ItemShape {
    ItemShape { ident: ident.to_owned(), has_generics: false, options: vec![], data: DataShape::Struct(FieldsShape::Named(fields)) }
}

fn plan(input: ItemShape) -> StructPlan {
    build(input).ok().expect("the derive accepts the struct")
}

fn map(entries: Vec<(&str, Value)>) -> Value {
    let mut t = Table::new();
    for (k, v) in entries {
        t.insert(k.to_owned(), v);
    }
    Value::Table(t)
}

fn errors(input: ItemShape, root: &Value) -> Vec<String> {
    check_fields(&plan(input).fields, root)
}

fn one_error(input: ItemShape, root: &Value) -> String {
    let errors = errors(input, root);
    assert_eq!(errors.len(), 1, "{errors:?}");
    errors.into_iter().next().unwrap()
}

const NONE: [String; 0] = [];

fn s(x: &str) -> Value {
    Value::Str(x.to_owned())
}

#[test]
fn string_into_u16_fails_with_key() {
    let msg = one_error(item("S", vec![field("port", ty("u16"))]), &map(vec![("port", s("eighty"))]));
    assert!(msg.contains("port"), "{msg}");
    assert!(msg.contains("found string"), "{msg}");
}

#[test]
fn out_of_range_fails() {
    let msg = one_error(item("S", vec![field("port", ty("u16"))]), &map(vec![("port", Value::Int(70000))]));
    assert_eq!(msg, "`port`: 70000 is out of range for u16");
}

#[test]
fn float_into_int_fails_but_int_into_float_passes() {
    let input = item("S", vec![field("a", ty("i32")), field("b", ty("f64"))]);
    let msg = one_error(input, &map(vec![("a", Value::Float(1.0f64.to_bits())), ("b", Value::Int(1))]));
    assert_eq!(msg, "`a`: expected i32, found float");
}

#[test]
fn integers_widen_to_floats_only_when_exact() {
    let input = || item("S", vec![field("a", ty("f32")), field("b", ty("f64"))]);
    assert_eq!(errors(input(), &map(vec![("a", Value::Int(-32768)), ("b", Value::Int(2147483647))])), NONE);
    let found = errors(input(), &map(vec![("a", Value::Int(32768)), ("b", Value::Int(-2147483649))]));
    assert_eq!(found, ["`a`: 32768 is out of range for f32", "`b`: -2147483649 is out of range for f64"]);
    let msg = one_error(input(), &map(vec![("a", s("1")), ("b", Value::Float(0))]));
    assert_eq!(msg, "`a`: expected f32, found string");
}

#[test]
fn missing_required_key() {
    let msg = one_error(item("S", vec![field("port", ty("u16"))]), &map(vec![]));
    assert_eq!(msg, "missing required key `port`");
}

#[test]
fn missing_key_with_default_or_option_passes() {
    let input = item(
        "S",
        vec![
            field("a", generic("Option", vec![ty("u16")])),
            with(field("b", ty("u16")), "default", OptionValue::Expr("1".to_owned())),
        ],
    );
    assert_eq!(errors(input, &map(vec![])), NONE);
}

#[test]
fn null_is_an_error_only_for_non_option_fields() {
    let input = item("S", vec![field("a", generic("Option", vec![ty("u16")])), field("b", ty("u16"))]);
    let msg = one_error(input, &map(vec![("a", Value::Null), ("b", Value::Null)]));
    assert!(msg.starts_with("`b`:") && msg.contains("null"), "{msg}");
}

#[test]
fn vec_element_error_has_index() {
    let root = map(vec![("ports", Value::Sequence(vec![Value::Int(1), s("x")]))]);
    let msg = one_error(item("S", vec![field("ports", generic("Vec", vec![ty("u16")]))]), &root);
    assert!(msg.contains("ports[1]"), "{msg}");
}

#[test]
fn nested_option_accepts_null() {
    let root = map(vec![("ports", Value::Sequence(vec![Value::Null, Value::Int(1)]))]);
    let input = item("S", vec![field("ports", generic("Vec", vec![generic("Option", vec![ty("u16")])]))]);
    assert_eq!(errors(input, &root), NONE);
}

#[test]
fn map_value_error_has_key() {
    let root = map(vec![("features", map(vec![("a", Value::Bool(true)), ("b", Value::Int(1))]))]);
    let hash_map = TypedArg {
        ty: TypeShape::Path {
            qualified: false,
            segments: vec![
                PathSegmentShape { ident: "std".to_owned(), arguments: ArgumentsShape::Plain },
                PathSegmentShape { ident: "collections".to_owned(), arguments: ArgumentsShape::Plain },
                PathSegmentShape {
                    ident: "HashMap".to_owned(),
                    arguments: ArgumentsShape::AngleBracketed(vec![
                        GenericArgShape::Type(ty("String")),
                        GenericArgShape::Type(ty("bool")),
                    ]),
                },
            ],
        },
        text: "std :: collections :: HashMap < String , bool >".to_owned(),
    };
    let msg = one_error(item("S", vec![field("features", hash_map)]), &root);
    assert_eq!(msg, "`features.b`: expected bool, found integer");
}

#[test]
fn tuple_checks_length_and_elements() {
    let input = || item("S", vec![field("t", tuple(vec![ty("u8"), generic("Box", vec![ty("String")])]))]);
    assert_eq!(errors(input(), &map(vec![("t", Value::Sequence(vec![Value::Int(1), s("a")]))])), NONE);
    let msg = one_error(input(), &map(vec![("t", Value::Sequence(vec![Value::Int(1)]))]));
    assert!(msg.contains("expected a sequence of 2 items, found 1"), "{msg}");
    let msg = one_error(input(), &map(vec![("t", Value::Sequence(vec![Value::Int(1), Value::Int(2)]))]));
    assert_eq!(msg, "`t[1]`: expected string, found integer");
}

#[test]
fn unknown_struct_type_only_requires_a_table() {
    let input = || item("S", vec![field("database", ty("Database"))]);
    assert_eq!(errors(input(), &map(vec![("database", map(vec![("port", s("x"))]))])), NONE);
    let msg = one_error(input(), &map(vec![("database", s("x"))]));
    assert_eq!(msg, "`database`: expected table, found string");
}

#[test]
fn unchecked_types_are_left_alone() {
    let reference = TypedArg { ty: TypeShape::Other, text: "& 'static str".to_owned() };
    let grouped = TypedArg { ty: TypeShape::Paren(Box::new(ty("u8").ty)), text: "(u8)".to_owned() };
    let input = item("S", vec![field("r", reference), field("g", grouped)]);
    let msg = one_error(input, &map(vec![("r", Value::Int(1)), ("g", Value::Int(256))]));
    assert_eq!(msg, "`g`: 256 is out of range for u8");
}

#[test]
fn root_must_be_a_table() {
    assert_eq!(
        one_error(item("S", vec![field("a", ty("u8"))]), &Value::Sequence(vec![])),
        "`<root>`: expected table, found sequence"
    );
}

#[test]
fn collects_every_error() {
    let input = item("S", vec![field("host", ty("String")), field("port", ty("u16"))]);
    let errors = errors(input, &map(vec![("host", Value::Int(1)), ("port", Value::Bool(true))]));
    assert_eq!(errors, ["`host`: expected string, found integer", "`port`: expected u16, found bool"]);
}

fn check_file(name: &str, contents: &str, input: ItemShape) -> Vec<String> {
    let fields: Vec<FieldPlan> = plan(input).fields;
    check_text(name, None, name, contents, &fields)
}

#[test]
fn unknown_extension_fails() {
    let errors = check_file("config.ini", "a = 1", item("S", vec![]));
    assert_eq!(errors.len(), 1, "{errors:?}");
    assert!(errors[0].contains("unknown extension `.ini`"), "{errors:?}");
}

#[test]
fn check_false_skips_missing_file() {
    let mut input = item("S", vec![field("port", ty("u16"))]);
    input.options.push(ConfigOption { name: "path".to_owned(), value: string("does/not/exist.toml") });
    input.options.push(ConfigOption { name: "check".to_owned(), value: OptionValue::Bool(false) });
    assert!(plan(input).checked_source().is_none());
    assert!(plan(item("S", vec![field("port", ty("u16"))])).checked_source().is_none());
    let mut checked = item("S", vec![]);
    checked.options.push(ConfigOption { name: "path".to_owned(), value: string("config.toml") });
    assert_eq!(plan(checked).checked_source().unwrap().path, "config.toml");
}

#[test]
fn malformed_toml_reports_line_and_col() {
    let errors = check_file("bad.toml", "a = 1\nb = = 2", item("S", vec![]));
    assert_eq!(errors.len(), 1, "{errors:?}");
    assert!(errors[0].starts_with("bad.toml:2:5: "), "{errors:?}");
}

#[test]
fn valid_file_passes() {
    let input = || item("S", vec![field("host", ty("String")), field("port", ty("u16")), field("database", ty("Database"))]);
    let errors = check_file("ok.toml", "host = \"localhost\"\nport = 8080\n[database]\nurl = 1\n", input());
    assert_eq!(errors, NONE);
    assert_eq!(check_file("ok.toml", "host = \"a\"\nport = 1\n[database]\n", input()), NONE);
}

#[test]
fn type_errors_in_file_fail() {
    let input = item("S", vec![field("host", ty("String")), field("port", ty("u16"))]);
    let errors = check_file("types.toml", "port = \"eighty\"\n", input);
    assert_eq!(errors.len(), 2, "{errors:?}");
    assert!(errors[0].ends_with("types.toml: missing required key `host`"), "{errors:?}");
    assert!(errors[1].ends_with("types.toml: `port`: expected u16, found string"), "{errors:?}");
}

#[test]
fn explicit_format_overrides_extension() {
    let fields = plan(item("S", vec![field("port", ty("u16"))])).fields;
    let errors = check_text("config.txt", Some("json"), "config.txt", r#"{"port": true}"#, &fields);
    assert_eq!(errors.len(), 1, "{errors:?}");
    assert!(errors[0].ends_with("`port`: expected u16, found bool"), "{errors:?}");
}

#[test]
fn check_messages_name_the_file_as_written() {
    let fields = plan(item("S", vec![])).fields;
    let errors = check_text("settings", None, "/abs/settings", "a = 1", &fields);
    assert_eq!(
        errors,
        ["config file `settings`: no file extension and the content does not look like JSON or YAML"]
    );
    let errors = check_text("bad.json", None, "/abs/bad.json", "[1, 2]", &fields);
    assert_eq!(errors, ["bad.json: `<root>`: expected table, found sequence"]);
}

fn error(input: ItemShape) -> String {
    build(input).err().expect("expected an error").remove(0).message
}

#[test]
fn named_struct_builds() {
    let plan = plan(item("Settings", vec![field("port", ty("u16")), field("host", ty("String"))]));
    assert_eq!(plan.ident, "Settings");
    assert!(plan.source.is_none());
    let keys: Vec<_> = plan.fields.iter().map(|f| f.key.as_str()).collect();
    assert_eq!(keys, ["port", "host"]);
}

#[test]
fn rejects_enum() {
    let input = ItemShape { ident: "E".to_owned(), has_generics: false, options: vec![], data: DataShape::Enum };
    assert!(error(input).contains("not enums"));
}

#[test]
fn rejects_union() {
    let input = ItemShape { ident: "U".to_owned(), has_generics: false, options: vec![], data: DataShape::Union };
    assert!(error(input).contains("not unions"));
}

#[test]
fn rejects_tuple_struct() {
    let input = ItemShape {
        ident: "T".to_owned(),
        has_generics: false,
        options: vec![],
        data: DataShape::Struct(FieldsShape::Unnamed),
    };
    assert!(error(input).contains("tuple structs"));
}

#[test]
fn rejects_unit_struct() {
    let input =
        ItemShape { ident: "U".to_owned(), has_generics: false, options: vec![], data: DataShape::Struct(FieldsShape::Unit) };
    assert!(error(input).contains("unit structs"));
}

#[test]
fn rejects_generics() {
    let msg = "generic structs are not supported yet";
    let mut g = item("G", vec![field("t", ty("T"))]);
    g.has_generics = true;
    assert_eq!(error(g), msg);
    let mut l = item("L", vec![field("s", TypedArg { ty: TypeShape::Other, text: "& 'a str".to_owned() })]);
    l.has_generics = true;
    assert_eq!(error(l), msg);
}

#[test]
fn keys_follow_rename_and_drop_the_raw_prefix() {
    let plan = plan(item(
        "K",
        vec![with(field("kind", ty("String")), "rename", string("type")), field("r#match", ty("String"))],
    ));
    let keys: Vec<_> = plan.fields.iter().map(|f| f.key.as_str()).collect();
    assert_eq!(keys, ["type", "match"]);
    assert_eq!(plan.fields[1].ident, "r#match");
}

#[test]
fn bad_options_are_all_reported() {
    let mut input = item("S", vec![with(field("port", ty("u16")), "path", string("config.toml"))]);
    input.options.push(ConfigOption { name: "rename".to_owned(), value: string("settings") });
    let errors = build(input).err().unwrap();
    let found: Vec<(&str, ErrorSite)> = errors.iter().map(|e| (e.message.as_str(), e.site)).collect();
    assert_eq!(
        found,
        [
            ("`rename` is a field option, not a struct option", ErrorSite::StructOption(0)),
            ("`path` is a struct option, not a field option", ErrorSite::FieldOption(0, 0)),
        ]
    );
}

#[test]
fn struct_options_are_checked() {
    let with_options = |options: Vec<(&str, OptionValue)>| {
        let mut input = item("S", vec![field("port", ty("u16"))]);
        for (name, value) in options {
            input.options.push(ConfigOption { name: name.to_owned(), value });
        }
        input
    };
    assert_eq!(error(with_options(vec![("default", OptionValue::Expr("8080".to_owned()))])), "`default` is a field option, not a struct option");
    assert_eq!(error(with_options(vec![("format", string("toml"))])), "`format` requires `path`");
    assert_eq!(
        error(with_options(vec![("path", string("settings.conf")), ("format", string("ini")), ("check", OptionValue::Bool(false))])),
        "unknown format `ini`, expected toml, json, or yaml"
    );
    assert_eq!(error(with_options(vec![("path", OptionValue::Expr("1".to_owned()))])), "`path` expects a string literal");
    assert_eq!(
        error(with_options(vec![("path", string("a.toml")), ("path", string("b.toml"))])),
        "duplicate `config` option `path`"
    );
    let plan = plan(with_options(vec![("path", string("a.yml")), ("format", string("yaml"))]));
    let source = plan.source.unwrap();
    assert_eq!((source.path.as_str(), source.format.as_deref(), source.check), ("a.yml", Some("yaml"), true));
}

#[test]
fn field_options_are_checked() {
    let one = |f: FieldShape| error(item("S", vec![f]));
    assert_eq!(one(with(field("port", ty("u16")), "optional", OptionValue::Flag)), "unknown `config` option `optional`");
    assert_eq!(one(with(field("port", ty("u16")), "default", OptionValue::Flag)), "`default` expects a value");
    assert_eq!(one(with(field("port", ty("u16")), "rename", OptionValue::Bool(true))), "`rename` expects a string literal");
    let duplicate = item("S", vec![field("port", ty("u16")), with(field("listen_port", ty("u16")), "rename", string("port"))]);
    let errors = build(duplicate).err().unwrap();
    assert_eq!(errors.len(), 1);
    assert_eq!(errors[0].message, "duplicate key `port`");
    assert_eq!(errors[0].site, ErrorSite::FieldIdent(1));
}

#[test]
fn from_value_impl_uses_absolute_paths_and_keys() {
    let out = expand(&plan(item(
        "Settings",
        vec![
            with(field("kind", ty("String")), "rename", string("type")),
            field("name", generic("Option", vec![ty("String")])),
            with(field("port", ty("u16")), "default", OptionValue::Expr("8080".to_owned())),
        ],
    )));
    assert!(out.contains("impl :: cfgy :: FromValue for Settings"), "{out}");
    assert!(out.contains("__cfgy_map . get (\"type\")"), "{out}");
    assert!(out.contains("< String as :: cfgy :: FromValue >"), "{out}");
    assert!(out.contains(":: cfgy :: Value :: Null"), "{out}");
    assert!(out.contains("{ 8080 }"), "{out}");
    assert_eq!(out.matches("ConfigError :: missing").count(), 1, "{out}");
    assert!(!out.contains("fn load"), "{out}");
}

#[test]
fn a_struct_with_a_path_gets_loading_methods() {
    let mut input = item("Settings", vec![field("port", ty("u16"))]);
    input.options.push(ConfigOption { name: "path".to_owned(), value: string("config/settings.yaml") });
    input.options.push(ConfigOption { name: "format".to_owned(), value: string("yaml") });
    let out = expand(&plan(input));
    assert!(out.contains("{ Self :: load_from (\"config/settings.yaml\") }"), "{out}");
    assert!(out.contains(":: cfgy :: load :: load_read :: < Self > (& __cfgy_path , :: core :: option :: Option :: Some (\"yaml\") , __cfgy_read)"), "{out}");
    assert!(out.contains("pub fn load_str (source : & str , format : & dyn :: cfgy :: Format)"), "{out}");
}

#[test]
fn keys_are_escaped_in_the_generated_literals() {
    let out = expand(&plan(item("Q", vec![with(field("q", ty("u8")), "rename", string("a\"b\\c"))])));
    assert!(out.contains("__cfgy_map . get (\"a\\\"b\\\\c\")"), "{out}");
}

#[test]
fn the_check_reports_first_what_the_runtime_stops_at() {
    let root = map(vec![("ports", Value::Sequence(vec![Value::Int(1), s("x"), Value::Int(70000)]))]);
    let errors = errors(item("S", vec![field("ports", generic("Vec", vec![ty("u16")]))]), &root);
    assert_eq!(errors, ["`ports[1]`: expected u16, found string", "`ports[2]`: 70000 is out of range for u16"]);
    let Value::Table(table) = &root else { unreachable!() };
    let mut path = PathStack::new();
    let runtime = path.with_key("ports", |p| Vec::<u16>::from_value(table.get("ports").unwrap(), p)).unwrap_err();
    assert_eq!(runtime.to_string(), errors[0]);
}

#[test]
fn unknown_keys_are_ignored() {
    let input = || item("S", vec![field("host", ty("String")), field("port", ty("u16"))]);
    let base = map(vec![("port", s("eighty"))]);
    let with_extra = map(vec![("port", s("eighty")), ("colour", Value::Bool(true)), ("zz", Value::Null)]);
    assert_eq!(errors(input(), &base), errors(input(), &with_extra));
}

#[test]
fn the_generated_impls_are_rust_items() {
    let mut input = item(
        "Settings",
        vec![
            with(field("kind", ty("String")), "rename", string("type")),
            field("r#match", generic("Option", vec![generic("Vec", vec![ty("u8")])])),
            with(field("port", ty("u16")), "default", OptionValue::Expr("8080".to_owned())),
        ],
    );
    input.options.push(ConfigOption { name: "path".to_owned(), value: string("config.toml") });
    let out = expand(&plan(input));
    let file = syn::parse_file(&out).unwrap();
    assert_eq!(file.items.len(), 2);
    assert!(matches!(&file.items[0], syn::Item::Impl(_)));
    assert!(matches!(&file.items[1], syn::Item::Impl(_)));
}

/// The runtime conversion of `v` at the key `port`, as the list of its error messages.
fn runtime<T: FromValue>(v: &Value) -> Vec<String> {
    let mut path = PathStack::new();
    match path.with_key("port", |p| T::from_value(v, p)) {
        Ok(_) => vec![],
        Err(e) => vec![e.to_string()],
    }
}

#[test]
fn the_check_of_a_scalar_adds_exactly_the_runtime_error() {
    let samples = || vec![Value::Int(80), Value::Int(70000), Value::Int(-1), s("80"), Value::Bool(true)];
    for (v, copy) in samples().into_iter().zip(samples()) {
        let root = map(vec![("port", copy)]);
        assert_eq!(errors(item("S", vec![field("port", ty("u16"))]), &root), runtime::<u16>(&v));
        assert_eq!(errors(item("S", vec![field("port", ty("bool"))]), &root), runtime::<bool>(&v));
        assert_eq!(errors(item("S", vec![field("port", ty("String"))]), &root), runtime::<String>(&v));
        assert_eq!(errors(item("S", vec![field("port", ty("i8"))]), &root), runtime::<i8>(&v));
    }
    assert_eq!(runtime::<u16>(&Value::Int(70000)), ["`port`: 70000 is out of range for u16"]);
    assert_eq!(runtime::<u16>(&Value::Int(80)), NONE);
}
