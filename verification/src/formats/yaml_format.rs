//! YAML 1.2, via `saphyr`.
use vstd::prelude::*;
use saphyr::{ScalarOwned, YamlOwned};
use vstd::string::StringExecFns;
use saphyr::LoadableYamlNode;
use crate::format::{Format, ParseError};
use crate::text::{char_width, lemma_utf8_len_take_next, utf8_len};
use crate::value::{inserted_all, kind_name, table_entries, Value, Table};

verus! {

/// YAML 1.2, via `saphyr`.
///
/// Only the first document of a stream is read. A stream with no documents (an empty or
/// comment-only file) lowers to an empty table, matching an empty TOML file; an explicit `~` or
/// bare `---` document lowers to `Null`.
#[derive(Debug, Clone, Copy)]
pub struct Yaml;

/// A loaded YAML node, node for node as `saphyr` gives it; a float is held as the bits of its
/// `f64`, a tag as its handle and suffix, an unresolved scalar as its text.
#[derive(Debug)]
pub enum YamlNode {
    Null,
    Bool(bool),
    Int(i64),
    Float(u64),
    Str(String),
    Sequence(Vec<YamlNode>),
    Mapping(Vec<(YamlNode, YamlNode)>),
    Tagged(String, Box<YamlNode>),
    Representation(String),
    Alias(usize),
    BadValue,
}

/// A YAML syntax error: `saphyr`'s description and the char index where it was found.
#[derive(Debug)]
pub struct YamlSyntaxError {
    pub info: String,
    pub index: usize,
}

/// What `saphyr` loads from `source`: the documents of the stream, or the syntax error.
pub uninterp spec fn yaml_documents(source: Seq<char>) -> Result<Vec<YamlNode>, YamlSyntaxError>;

/// `saphyr::YamlOwned::load_from_str`, handed over node for node.
#[verifier::external_body]
fn load_yaml(source: &str) -> (r: Result<Vec<YamlNode>, YamlSyntaxError>)
    ensures
        r == yaml_documents(source@),
{
    match YamlOwned::load_from_str(source) {
        Ok(docs) => Ok(docs.into_iter().map(yaml_node).collect()),
        Err(err) => Err(YamlSyntaxError { info: err.info().to_owned(), index: err.marker().index() }),
    }
}

/// `saphyr`'s owned node type, which the conversion below hands over node for node.
#[verifier::external_type_specification]
#[verifier::external_body]
pub struct ExYamlOwned(YamlOwned);

/// `saphyr`'s owned scalar type.
#[verifier::external_type_specification]
#[verifier::external_body]
pub struct ExScalarOwned(ScalarOwned);

/// One `saphyr::ScalarOwned`, variant for variant (a float by its bits); only `yaml_node` uses it.
#[verifier::external_body]
fn yaml_scalar(scalar: ScalarOwned) -> YamlNode {
    match scalar {
        ScalarOwned::Null => YamlNode::Null,
        ScalarOwned::Boolean(b) => YamlNode::Bool(b),
        ScalarOwned::Integer(i) => YamlNode::Int(i),
        ScalarOwned::FloatingPoint(x) => YamlNode::Float(x.0.to_bits()),
        ScalarOwned::String(s) => YamlNode::Str(s),
    }
}

/// One `saphyr::YamlOwned`, variant for variant; only `load_yaml` uses it, to hand the tree over.
#[verifier::external_body]
fn yaml_node(node: YamlOwned) -> YamlNode {
    match node {
        YamlOwned::Value(scalar) => yaml_scalar(scalar),
        YamlOwned::Sequence(items) => YamlNode::Sequence(items.into_iter().map(yaml_node).collect()),
        YamlOwned::Mapping(map) => YamlNode::Mapping(map.into_iter().map(|(k, v)| (yaml_node(k), yaml_node(v))).collect()),
        YamlOwned::Tagged(tag, inner) => YamlNode::Tagged(tag.to_string(), Box::new(yaml_node(*inner))),
        YamlOwned::Representation(text, _, _) => YamlNode::Representation(text),
        YamlOwned::Alias(id) => YamlNode::Alias(id),
        YamlOwned::BadValue => YamlNode::BadValue,
    }
}

/// The string a node lowers to, when it lowers to a string.
pub open spec fn yaml_key(n: YamlNode) -> Option<String>
    decreases n,
{
    match n {
        YamlNode::Str(s) => Some(s),
        YamlNode::Tagged(_, inner) => yaml_key(*inner),
        _ => None,
    }
}

/// The kind of value a node lowers to, as error messages name it.
pub open spec fn yaml_kind(n: YamlNode) -> Seq<char>
    decreases n,
{
    match n {
        YamlNode::Null => "null"@,
        YamlNode::Bool(_) => "bool"@,
        YamlNode::Int(_) => "integer"@,
        YamlNode::Float(_) => "float"@,
        YamlNode::Str(_) => "string"@,
        YamlNode::Sequence(_) => "sequence"@,
        YamlNode::Mapping(_) => "table"@,
        YamlNode::Tagged(_, inner) => yaml_kind(*inner),
        _ => Seq::empty(),
    }
}

/// The first error that lowering `n` meets.
pub open spec fn yaml_error(n: YamlNode) -> Option<Seq<char>>
    decreases n,
{
    match n {
        YamlNode::Sequence(items) => yaml_error_in(items@),
        YamlNode::Mapping(entries) => yaml_error_in_entries(entries@),
        YamlNode::Tagged(_, inner) => yaml_error(*inner),
        YamlNode::BadValue => Some("scalar does not match its tag"@),
        YamlNode::Representation(_) => Some("unresolved YAML node"@),
        YamlNode::Alias(_) => Some("unresolved YAML node"@),
        _ => None,
    }
}

/// The first error among `items`, in order.
pub open spec fn yaml_error_in(items: Seq<YamlNode>) -> Option<Seq<char>>
    decreases items,
{
    if items.len() == 0 {
        None
    } else {
        match yaml_error(items[0]) {
            Some(m) => Some(m),
            None => yaml_error_in(items.drop_first()),
        }
    }
}

/// The error of one mapping entry: the key's own, a key that is not a string, or the value's.
pub open spec fn yaml_entry_error(key: YamlNode, value: YamlNode) -> Option<Seq<char>> {
    match yaml_error(key) {
        Some(m) => Some(m),
        None => match yaml_key(key) {
            None => Some("mapping keys must be strings, found "@ + yaml_kind(key)),
            Some(_) => yaml_error(value),
        },
    }
}

/// The first error among the entries of a mapping, in order.
pub open spec fn yaml_error_in_entries(entries: Seq<(YamlNode, YamlNode)>) -> Option<Seq<char>>
    decreases entries,
{
    if entries.len() == 0 {
        None
    } else {
        match yaml_error(entries[0].0) {
            Some(m) => Some(m),
            None => match yaml_key(entries[0].0) {
                None => Some("mapping keys must be strings, found "@ + yaml_kind(entries[0].0)),
                Some(_) => match yaml_error(entries[0].1) {
                    Some(m) => Some(m),
                    None => yaml_error_in_entries(entries.drop_first()),
                },
            },
        }
    }
}

/// The keys of a mapping's entries, as strings.
pub open spec fn yaml_keys(entries: Seq<(YamlNode, YamlNode)>) -> Seq<String> {
    entries.map_values(|e: (YamlNode, YamlNode)| yaml_key(e.0)->0)
}

/// `v` is what the YAML node `n` lowers to when lowering meets no error.
pub open spec fn yaml_value(n: YamlNode, v: Value) -> bool
    decreases n,
{
    match n {
        YamlNode::Null => v == Value::Null,
        YamlNode::Bool(b) => v == Value::Bool(b),
        YamlNode::Int(i) => v == Value::Int(i),
        YamlNode::Float(b) => v == Value::Float(b),
        YamlNode::Str(s) => v == Value::Str(s),
        YamlNode::Sequence(items) => match v {
            Value::Sequence(vs) => vs@.len() == items@.len()
                && forall|i: int| 0 <= i < items@.len() ==> yaml_value(#[trigger] items@[i], vs@[i]),
            _ => false,
        },
        YamlNode::Mapping(entries) => match v {
            Value::Table(t) => exists|vals: Seq<Value>|
                #![trigger vals.len()]
            {
                &&& vals.len() == entries@.len()
                &&& forall|i: int| 0 <= i < entries@.len() ==> yaml_value(#[trigger] entries@[i].1, vals[i])
                &&& table_entries(t) == inserted_all(Seq::empty(), yaml_keys(entries@), vals)
            },
            _ => false,
        },
        YamlNode::Tagged(_, inner) => yaml_value(*inner, v),
        _ => false,
    }
}

/// `r` is what lowering `n` gives: its first error, or the lowered value.
pub open spec fn yaml_lowers(n: YamlNode, r: Result<Value, ParseError>) -> bool {
    match (yaml_error(n), r) {
        (Some(m), Err(e)) => e.message@ == m && e.offset is None,
        (None, Ok(v)) => yaml_value(n, v),
        _ => false,
    }
}

proof fn lemma_error_in_prefix(items: Seq<YamlNode>, i: int)
    requires
        0 <= i < items.len(),
        forall|j: int| 0 <= j < i ==> yaml_error(#[trigger] items[j]) is None,
    ensures
        yaml_error_in(items) == (match yaml_error(items[i]) {
            Some(m) => Some(m),
            None => yaml_error_in(items.skip(i + 1)),
        }),
    decreases i,
{
    if i > 0 {
        assert forall|j: int| 0 <= j < i - 1 implies yaml_error(#[trigger] items.drop_first()[j]) is None by {
        }
        lemma_error_in_prefix(items.drop_first(), i - 1);
        assert(items.drop_first().skip(i) =~= items.skip(i + 1));
    } else {
        assert(items.drop_first() =~= items.skip(1));
    }
}

proof fn lemma_error_in_entries_prefix(entries: Seq<(YamlNode, YamlNode)>, i: int)
    requires
        0 <= i < entries.len(),
        forall|j: int| 0 <= j < i ==> yaml_entry_error(#[trigger] entries[j].0, entries[j].1) is None,
    ensures
        yaml_error_in_entries(entries) == (match yaml_entry_error(entries[i].0, entries[i].1) {
            Some(m) => Some(m),
            None => yaml_error_in_entries(entries.skip(i + 1)),
        }),
    decreases i,
{
    if i > 0 {
        assert forall|j: int| 0 <= j < i - 1 implies yaml_entry_error(#[trigger] entries.drop_first()[j].0, entries.drop_first()[j].1) is None by {
        }
        lemma_error_in_entries_prefix(entries.drop_first(), i - 1);
        assert(entries.drop_first().skip(i) =~= entries.skip(i + 1));
    } else {
        assert(entries.drop_first() =~= entries.skip(1));
    }
}

proof fn lemma_key_kind(n: YamlNode, v: Value)
    requires
        yaml_value(n, v),
    ensures
        kind_name(v) == yaml_kind(n),
        (v matches Value::Str(s) && yaml_key(n) == Some(s)) || (!(v is Str) && yaml_key(n) is None),
    decreases n,
{
    match n {
        YamlNode::Tagged(_, inner) => lemma_key_kind(*inner, v),
        _ => {},
    }
}

/// Lowers one YAML node into a [`Value`]: tags are dropped, mapping keys must lower to
/// strings, and bad or unresolved nodes are errors.
pub fn lower(n: &YamlNode) -> (r: Result<Value, ParseError>)
    ensures
        yaml_lowers(*n, r),
    decreases n, 1nat,
{
    match n {
        YamlNode::Null => Ok(Value::Null),
        YamlNode::Bool(b) => Ok(Value::Bool(*b)),
        YamlNode::Int(i) => Ok(Value::Int(*i)),
        YamlNode::Float(b) => Ok(Value::Float(*b)),
        YamlNode::Str(s) => Ok(Value::Str(s.clone())),
        YamlNode::Sequence(items) => {
            let mut vs: Vec<Value> = Vec::new();
            let mut i: usize = 0;
            while i < items.len()
                invariant
                    *n == YamlNode::Sequence(*items),
                    i <= items@.len(),
                    vs@.len() == i,
                    forall|j: int| 0 <= j < i ==> yaml_error(#[trigger] items@[j]) is None,
                    forall|j: int| 0 <= j < i ==> yaml_value(#[trigger] items@[j], vs@[j]),
                decreases items@.len() - i,
            {
                proof {
                    assert(decreases_to!(*n => (*n)->Sequence_0));
                    lemma_error_in_prefix(items@, i as int);
                }
                match lower(&items[i]) {
                    Ok(v) => vs.push(v),
                    Err(e) => return Err(e),
                }
                i += 1;
            }
            proof {
                assert(items@.skip(i as int) =~= Seq::<YamlNode>::empty());
                if i > 0 {
                    lemma_error_in_prefix(items@, i - 1);
                }
            }
            Ok(Value::Sequence(vs))
        },
        YamlNode::Mapping(entries) => lower_mapping(n, entries),
        YamlNode::Tagged(_, inner) => {
            proof { assert(decreases_to!(*n => *(*n)->Tagged_1)); }
            lower(inner)
        },
        YamlNode::BadValue => Err(ParseError { message: String::from_str("scalar does not match its tag"), offset: None }),
        YamlNode::Representation(_) => Err(ParseError { message: String::from_str("unresolved YAML node"), offset: None }),
        YamlNode::Alias(_) => Err(ParseError { message: String::from_str("unresolved YAML node"), offset: None }),
    }
}

/// Lowers the entries of a mapping into a [`Table`], in order: each key must lower to a string.
fn lower_mapping(n: &YamlNode, entries: &Vec<(YamlNode, YamlNode)>) -> (r: Result<Value, ParseError>)
    requires
        *n == YamlNode::Mapping(*entries),
    ensures
        yaml_lowers(*n, r),
    decreases n, 0nat,
{
    let mut t = Table::new();
    let ghost mut vals: Seq<Value> = Seq::empty();
    let mut i: usize = 0;
    while i < entries.len()
        invariant
            *n == YamlNode::Mapping(*entries),
            i <= entries@.len(),
            vals.len() == i,
            forall|j: int| 0 <= j < i ==> yaml_entry_error(#[trigger] entries@[j].0, entries@[j].1) is None,
            forall|j: int| 0 <= j < i ==> yaml_value(#[trigger] entries@[j].1, vals[j]),
            table_entries(t) == inserted_all(Seq::empty(), yaml_keys(entries@.take(i as int)), vals),
        decreases entries@.len() - i,
    {
        proof {
            assert(decreases_to!(*n => (*n)->Mapping_0));
            lemma_error_in_entries_prefix(entries@, i as int);
        }
        let key = match lower(&entries[i].0) {
            Ok(k) => k,
            Err(e) => return Err(e),
        };
        proof { lemma_key_kind(entries@[i as int].0, key); }
        let key = match key {
            Value::Str(k) => k,
            other => {
                let mut m = String::from_str("mapping keys must be strings, found ");
                m.append(other.kind());
                return Err(ParseError { message: m, offset: None });
            },
        };
        let v = match lower(&entries[i].1) {
            Ok(v) => v,
            Err(e) => return Err(e),
        };
        proof {
            assert(yaml_keys(entries@.take(i + 1)).drop_last() =~= yaml_keys(entries@.take(i as int)));
            assert(vals.push(v).drop_last() =~= vals);
        }
        t.insert(key, v);
        proof { vals = vals.push(v); }
        i += 1;
    }
    proof {
        assert(entries@.take(i as int) =~= entries@);
        assert(entries@.skip(i as int) =~= Seq::<(YamlNode, YamlNode)>::empty());
        if i > 0 {
            lemma_error_in_entries_prefix(entries@, i - 1);
        }
    }
    let v = Value::Table(t);
    Ok(v)
}

/// The byte offset of the `chars`-th char of `s`, or of its end when `chars` is its length.
pub open spec fn byte_offset_of(s: Seq<char>, chars: usize) -> Option<usize> {
    if chars <= s.len() && utf8_len(s.take(chars as int)) <= usize::MAX {
        Some(utf8_len(s.take(chars as int)) as usize)
    } else {
        None
    }
}

/// `saphyr` markers count chars; converts one to a byte offset into `source`.
pub fn byte_offset(source: &str, chars: usize) -> (r: Option<usize>)
    ensures
        r == byte_offset_of(source@, chars),
{
    let ghost s = source@;
    let mut bytes: usize = 0;
    let mut k: usize = 0;
    proof { assert(s.take(0) =~= Seq::<char>::empty()); }
    for c in it: source.chars()
        invariant
            s == source@,
            it.seq() == s,
            k == it.index(),
            k <= chars,
            bytes == utf8_len(s.take(k as int)),
    {
        if k == chars {
            return Some(bytes);
        }
        proof { lemma_utf8_len_take_next(s, k as int); }
        let w = char_width(c);
        if bytes > usize::MAX - w {
            proof {
                if k + 1 < chars && chars <= s.len() {
                    crate::text::lemma_utf8_len_take_strict(s, k + 1, chars as int);
                }
            }
            return None;
        }
        bytes = bytes + w;
        k = k + 1;
    }
    if k == chars {
        Some(bytes)
    } else {
        None
    }
}

/// What parsing `source` as YAML gives: the lowered first document (an empty table when there
/// is none), or the syntax error with its char index turned into a byte offset.
pub open spec fn yaml_parses_to(source: Seq<char>, r: Result<Value, ParseError>) -> bool {
    match yaml_documents(source) {
        Ok(docs) => if docs@.len() == 0 {
            match r {
                Ok(Value::Table(t)) => table_entries(t) == Seq::<(String, Value)>::empty(),
                _ => false,
            }
        } else {
            yaml_lowers(docs@[0], r)
        },
        Err(e) => match r {
            Err(pe) => pe.message@ == e.info@ && pe.offset == byte_offset_of(source, e.index),
            Ok(_) => false,
        },
    }
}

impl Format for Yaml {
    open spec fn spec_name(&self) -> Seq<char> {
        "yaml"@
    }

    open spec fn parses_to(&self, source: Seq<char>, r: Result<Value, ParseError>) -> bool {
        yaml_parses_to(source, r)
    }

    fn name(&self) -> (n: &'static str) {
        "yaml"
    }

    fn parse(&self, source: &str) -> (r: Result<Value, ParseError>) {
        match load_yaml(source) {
            Ok(docs) => {
                if docs.len() == 0 {
                    let t = Table::new();
                    let v = Value::Table(t);
                    Ok(v)
                } else {
                    lower(&docs[0])
                }
            },
            Err(e) => Err(ParseError { message: e.info, offset: byte_offset(source, e.index) }),
        }
    }
}

} // verus!
