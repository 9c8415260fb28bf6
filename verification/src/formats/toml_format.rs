//! TOML, via the `toml` crate.
use vstd::prelude::*;
use toml::Value as TomlTree;
use crate::format::{Format, ParseError};
use crate::value::{inserted_all, table_entries, Datetime, Table, Value};

verus! {

/// TOML, via the `toml` crate.
#[derive(Debug, Clone, Copy)]
pub struct Toml;

/// A parsed TOML value, node for node as the `toml` crate reads it; a float is held as the bits
/// of its `f64`, a datetime as its text.
#[derive(Debug)]
pub enum TomlNode {
    Str(String),
    Int(i64),
    Float(u64),
    Bool(bool),
    Datetime(String),
    Array(Vec<TomlNode>),
    Table(Vec<(String, TomlNode)>),
}

/// A TOML syntax error: the crate's message and the byte span start it reports, if any.
#[derive(Debug)]
pub struct TomlSyntaxError {
    pub message: String,
    pub offset: Option<usize>,
}

/// What the `toml` crate reads from `source` as a document: the root table's entries, or the
/// syntax error.
pub uninterp spec fn toml_document(source: Seq<char>) -> Result<Vec<(String, TomlNode)>, TomlSyntaxError>;

/// `source.parse::<toml::Table>()`, handed over node for node.
#[verifier::external_body]
fn parse_toml(source: &str) -> (r: Result<Vec<(String, TomlNode)>, TomlSyntaxError>)
    ensures
        r == toml_document(source@),
{
    match source.parse::<toml::Table>() {
        Ok(table) => Ok(table.into_iter().map(|(k, v)| (k, toml_node(v))).collect()),
        Err(err) => Err(TomlSyntaxError { message: err.message().to_owned(), offset: err.span().map(|s| s.start) }),
    }
}

/// The `toml` crate's value tree, which the conversion below hands over node for node.
#[verifier::external_type_specification]
#[verifier::external_body]
pub struct ExTomlValue(TomlTree);

/// One `toml::Value`, variant for variant; only `parse_toml` uses it, to hand the tree over.
#[verifier::external_body]
fn toml_node(value: TomlTree) -> TomlNode {
    match value {
        TomlTree::String(s) => TomlNode::Str(s),
        TomlTree::Integer(i) => TomlNode::Int(i),
        TomlTree::Float(f) => TomlNode::Float(f.to_bits()),
        TomlTree::Boolean(b) => TomlNode::Bool(b),
        TomlTree::Datetime(d) => TomlNode::Datetime(d.to_string()),
        TomlTree::Array(items) => TomlNode::Array(items.into_iter().map(toml_node).collect()),
        TomlTree::Table(t) => TomlNode::Table(t.into_iter().map(|(k, v)| (k, toml_node(v))).collect()),
    }
}

/// The keys of a list of entries.
pub open spec fn entry_keys<N>(entries: Seq<(String, N)>) -> Seq<String> {
    entries.map_values(|e: (String, N)| e.0)
}

/// `v` is what the TOML node `n` lowers to: the same shape, with tables built by inserting the
/// entries in order.
pub open spec fn toml_value(n: TomlNode, v: Value) -> bool
    decreases n,
{
    match n {
        TomlNode::Str(s) => match v {
            Value::Str(t) => t@ == s@,
            _ => false,
        },
        TomlNode::Int(i) => v == Value::Int(i),
        TomlNode::Float(b) => v == Value::Float(b),
        TomlNode::Bool(b) => v == Value::Bool(b),
        TomlNode::Datetime(s) => match v {
            Value::Datetime(d) => d.0@ == s@,
            _ => false,
        },
        TomlNode::Array(items) => match v {
            Value::Sequence(vs) => vs@.len() == items@.len()
                && forall|i: int| 0 <= i < items@.len() ==> toml_value(#[trigger] items@[i], vs@[i]),
            _ => false,
        },
        TomlNode::Table(entries) => match v {
            Value::Table(t) => exists|vals: Seq<Value>|
                #![trigger vals.len()]
            {
                &&& vals.len() == entries@.len()
                &&& forall|i: int| 0 <= i < entries@.len() ==> toml_value(#[trigger] entries@[i].1, vals[i])
                &&& table_entries(t) == inserted_all(Seq::empty(), entry_keys(entries@), vals)
            },
            _ => false,
        },
    }
}

/// Lowers one TOML node into a [`Value`].
pub fn lower(n: &TomlNode) -> (v: Value)
    ensures
        toml_value(*n, v),
    decreases n,
{
    match n {
        TomlNode::Str(s) => {
            let c = s.clone();
            Value::Str(c)
        },
        TomlNode::Int(i) => Value::Int(*i),
        TomlNode::Float(b) => Value::Float(*b),
        TomlNode::Bool(b) => Value::Bool(*b),
        TomlNode::Datetime(s) => {
            Value::Datetime(Datetime(s.clone()))
        },
        TomlNode::Array(items) => {
            let mut vs: Vec<Value> = Vec::new();
            let mut i: usize = 0;
            while i < items.len()
                invariant
                    *n == TomlNode::Array(*items),
                    i <= items@.len(),
                    vs@.len() == i,
                    forall|j: int| 0 <= j < i ==> toml_value(#[trigger] items@[j], vs@[j]),
                decreases items@.len() - i,
            {
                proof {
                    assert(decreases_to!(*n => (*n)->Array_0));
                }
                vs.push(lower(&items[i]));
                i += 1;
            }
            Value::Sequence(vs)
        },
        TomlNode::Table(entries) => {
            let t = lower_table(entries);
            Value::Table(t)
        },
    }
}

/// Lowers the entries of a TOML table into a [`Table`], inserting them in order.
pub fn lower_table(entries: &Vec<(String, TomlNode)>) -> (t: Table)
    ensures
        toml_value(TomlNode::Table(*entries), Value::Table(t)),
    decreases entries,
{
    let mut t = Table::new();
    let ghost mut vals: Seq<Value> = Seq::empty();
    let mut i: usize = 0;
    while i < entries.len()
        invariant
            i <= entries@.len(),
            vals.len() == i,
            forall|j: int| 0 <= j < i ==> toml_value(#[trigger] entries@[j].1, vals[j]),
            table_entries(t) == inserted_all(Seq::empty(), entry_keys(entries@.take(i as int)), vals),
        decreases entries@.len() - i,
    {
        let v = lower(&entries[i].1);
        let key = entries[i].0.clone();
        proof {
            assert(entry_keys(entries@.take(i + 1)).drop_last() =~= entry_keys(entries@.take(i as int)));
            assert(vals.push(v).drop_last() =~= vals);
        }
        t.insert(key, v);
        proof { vals = vals.push(v); }
        i += 1;
    }
    proof {
        assert(entries@.take(i as int) =~= entries@);
    }
    t
}

/// What parsing `source` as TOML gives: the lowered root table, or the syntax error.
pub open spec fn toml_parses_to(source: Seq<char>, r: Result<Value, ParseError>) -> bool {
    match (toml_document(source), r) {
        (Ok(entries), Ok(v)) => toml_value(TomlNode::Table(entries), v),
        (Err(e), Err(pe)) => pe.message@ == e.message@ && pe.offset == e.offset,
        _ => false,
    }
}

impl Format for Toml {
    open spec fn spec_name(&self) -> Seq<char> {
        "toml"@
    }

    open spec fn parses_to(&self, source: Seq<char>, r: Result<Value, ParseError>) -> bool {
        toml_parses_to(source, r)
    }

    fn name(&self) -> (n: &'static str) {
        "toml"
    }

    fn parse(&self, source: &str) -> (r: Result<Value, ParseError>) {
        match parse_toml(source) {
            Ok(entries) => {
                let t = lower_table(&entries);
                Ok(Value::Table(t))
            },
            Err(e) => Err(ParseError { message: e.message, offset: e.offset }),
        }
    }
}

} // verus!
