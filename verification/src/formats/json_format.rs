//! JSON, via `serde_json`.
use vstd::prelude::*;
use serde_json::Value as JsonTree;
use vstd::string::StringExecFns;
use vstd::string::StrSliceExecFns;
use crate::format::{Format, ParseError};
use crate::formats::toml_format::entry_keys;
use crate::text::{decimal, push_decimal, utf8_len, char_width, lemma_utf8_len_take_next};
use crate::value::{inserted_all, table_entries, Value, Table};

verus! {

/// JSON, via `serde_json`.
#[derive(Debug, Clone, Copy)]
pub struct Json;

/// A JSON number as `serde_json` reports it: as an `i64` if it is an integer in range, as the
/// bits of an `f64` if it has one, whether it is an integer in `0..=u64::MAX`, and its text.
#[derive(Debug)]
pub struct JsonNumber {
    pub as_i64: Option<i64>,
    pub as_f64: Option<u64>,
    pub is_u64: bool,
    pub text: String,
}

/// A parsed JSON value, node for node as `serde_json` reads it.
#[derive(Debug)]
pub enum JsonNode {
    Null,
    Bool(bool),
    Number(JsonNumber),
    Str(String),
    Array(Vec<JsonNode>),
    Object(Vec<(String, JsonNode)>),
}

/// A JSON syntax error: `serde_json`'s message and its 1-based line and byte column.
#[derive(Debug)]
pub struct JsonSyntaxError {
    pub message: String,
    pub line: usize,
    pub column: usize,
}

/// What `serde_json` reads from `source`: the document, or the syntax error.
pub uninterp spec fn json_document(source: Seq<char>) -> Result<JsonNode, JsonSyntaxError>;

/// `serde_json::from_str::<serde_json::Value>`, handed over node for node.
#[verifier::external_body]
fn parse_json(source: &str) -> (r: Result<JsonNode, JsonSyntaxError>)
    ensures
        r == json_document(source@),
{
    match serde_json::from_str::<serde_json::Value>(source) {
        Ok(value) => Ok(json_node(value)),
        Err(err) => Err(JsonSyntaxError { message: err.to_string(), line: err.line(), column: err.column() }),
    }
}

/// `serde_json`'s value tree, which the conversion below hands over node for node.
#[verifier::external_type_specification]
#[verifier::external_body]
pub struct ExJsonValue(JsonTree);

/// One `serde_json::Value`, variant for variant; only `parse_json` uses it, to hand the tree over.
#[verifier::external_body]
fn json_node(value: JsonTree) -> JsonNode {
    match value {
        JsonTree::Null => JsonNode::Null,
        JsonTree::Bool(b) => JsonNode::Bool(b),
        JsonTree::Number(n) => JsonNode::Number(JsonNumber {
            as_i64: n.as_i64(), as_f64: n.as_f64().map(|x| x.to_bits()), is_u64: n.is_u64(), text: n.to_string(),
        }),
        JsonTree::String(s) => JsonNode::Str(s),
        JsonTree::Array(items) => JsonNode::Array(items.into_iter().map(json_node).collect()),
        JsonTree::Object(map) => JsonNode::Object(map.into_iter().map(|(k, v)| (k, json_node(v))).collect()),
    }
}

/// The first error that lowering `n` meets: a number that is an integer outside `i64`.
pub open spec fn json_error(n: JsonNode) -> Option<Seq<char>>
    decreases n,
{
    match n {
        JsonNode::Number(num) => if num.as_i64 is Some || (num.as_f64 is Some && !num.is_u64) {
            None
        } else {
            Some("integer "@ + num.text@ + " is out of range for i64"@)
        },
        JsonNode::Array(items) => json_error_in(items@),
        JsonNode::Object(entries) => json_error_in_entries(entries@),
        _ => None,
    }
}

/// The first error among `items`, in order.
pub open spec fn json_error_in(items: Seq<JsonNode>) -> Option<Seq<char>>
    decreases items,
{
    if items.len() == 0 {
        None
    } else {
        match json_error(items[0]) {
            Some(m) => Some(m),
            None => json_error_in(items.drop_first()),
        }
    }
}

/// The first error among the values of `entries`, in order.
pub open spec fn json_error_in_entries(entries: Seq<(String, JsonNode)>) -> Option<Seq<char>>
    decreases entries,
{
    if entries.len() == 0 {
        None
    } else {
        match json_error(entries[0].1) {
            Some(m) => Some(m),
            None => json_error_in_entries(entries.drop_first()),
        }
    }
}

/// `v` is what the JSON node `n` lowers to when lowering meets no error.
pub open spec fn json_value(n: JsonNode, v: Value) -> bool
    decreases n,
{
    match n {
        JsonNode::Null => v == Value::Null,
        JsonNode::Bool(b) => v == Value::Bool(b),
        JsonNode::Number(num) => match num.as_i64 {
            Some(i) => v == Value::Int(i),
            None => v == Value::Float(num.as_f64->0),
        },
        JsonNode::Str(s) => match v {
            Value::Str(t) => t@ == s@,
            _ => false,
        },
        JsonNode::Array(items) => match v {
            Value::Sequence(vs) => vs@.len() == items@.len()
                && forall|i: int| 0 <= i < items@.len() ==> json_value(#[trigger] items@[i], vs@[i]),
            _ => false,
        },
        JsonNode::Object(entries) => match v {
            Value::Table(t) => exists|vals: Seq<Value>|
                #![trigger vals.len()]
            {
                &&& vals.len() == entries@.len()
                &&& forall|i: int| 0 <= i < entries@.len() ==> json_value(#[trigger] entries@[i].1, vals[i])
                &&& table_entries(t) == inserted_all(Seq::empty(), entry_keys(entries@), vals)
            },
            _ => false,
        },
    }
}

/// `r` is what lowering `n` gives: its first error, or the lowered value.
pub open spec fn json_lowers(n: JsonNode, r: Result<Value, ParseError>) -> bool {
    match (json_error(n), r) {
        (Some(m), Err(e)) => e.message@ == m && e.offset is None,
        (None, Ok(v)) => json_value(n, v),
        _ => false,
    }
}

proof fn lemma_error_in_prefix(items: Seq<JsonNode>, i: int)
    requires
        0 <= i < items.len(),
        forall|j: int| 0 <= j < i ==> json_error(#[trigger] items[j]) is None,
    ensures
        json_error_in(items) == (match json_error(items[i]) {
            Some(m) => Some(m),
            None => json_error_in(items.skip(i + 1)),
        }),
    decreases i,
{
    if i > 0 {
        assert forall|j: int| 0 <= j < i - 1 implies json_error(#[trigger] items.drop_first()[j]) is None by {
        }
        lemma_error_in_prefix(items.drop_first(), i - 1);
        assert(items.drop_first().skip(i) =~= items.skip(i + 1));
    } else {
        assert(items.drop_first() =~= items.skip(1));
    }
}

proof fn lemma_error_in_entries_prefix(entries: Seq<(String, JsonNode)>, i: int)
    requires
        0 <= i < entries.len(),
        forall|j: int| 0 <= j < i ==> json_error(#[trigger] entries[j].1) is None,
    ensures
        json_error_in_entries(entries) == (match json_error(entries[i].1) {
            Some(m) => Some(m),
            None => json_error_in_entries(entries.skip(i + 1)),
        }),
    decreases i,
{
    if i > 0 {
        assert forall|j: int| 0 <= j < i - 1 implies json_error(#[trigger] entries.drop_first()[j].1) is None by {
        }
        lemma_error_in_entries_prefix(entries.drop_first(), i - 1);
        assert(entries.drop_first().skip(i) =~= entries.skip(i + 1));
    } else {
        assert(entries.drop_first() =~= entries.skip(1));
    }
}

/// Lowers one JSON node into a [`Value`], failing on an integer outside `i64`.
pub fn lower(n: &JsonNode) -> (r: Result<Value, ParseError>)
    ensures
        json_lowers(*n, r),
    decreases n,
{
    match n {
        JsonNode::Null => Ok(Value::Null),
        JsonNode::Bool(b) => Ok(Value::Bool(*b)),
        JsonNode::Number(num) => {
            match num.as_i64 {
                Some(i) => Ok(Value::Int(i)),
                None => match num.as_f64 {
                    Some(f) if !num.is_u64 => Ok(Value::Float(f)),
                    _ => {
                        let mut m = String::from_str("integer ");
                        m.append(num.text.as_str());
                        m.append(" is out of range for i64");
                        Err(ParseError { message: m, offset: None })
                    },
                },
            }
        },
        JsonNode::Str(s) => {
            let c = s.clone();
            Ok(Value::Str(c))
        },
        JsonNode::Array(items) => {
            let mut vs: Vec<Value> = Vec::new();
            let mut i: usize = 0;
            while i < items.len()
                invariant
                    *n == JsonNode::Array(*items),
                    i <= items@.len(),
                    vs@.len() == i,
                    forall|j: int| 0 <= j < i ==> json_error(#[trigger] items@[j]) is None,
                    forall|j: int| 0 <= j < i ==> json_value(#[trigger] items@[j], vs@[j]),
                decreases items@.len() - i,
            {
                proof {
                    assert(decreases_to!(*n => (*n)->Array_0));
                    lemma_error_in_prefix(items@, i as int);
                }
                match lower(&items[i]) {
                    Ok(v) => vs.push(v),
                    Err(e) => return Err(e),
                }
                i += 1;
            }
            proof {
                assert(items@.skip(i as int) =~= Seq::<JsonNode>::empty());
                if i > 0 {
                    lemma_error_in_prefix(items@, i - 1);
                }
            }
            Ok(Value::Sequence(vs))
        },
        JsonNode::Object(entries) => {
            let mut t = Table::new();
            let ghost mut vals: Seq<Value> = Seq::empty();
            let mut i: usize = 0;
            while i < entries.len()
                invariant
                    *n == JsonNode::Object(*entries),
                    i <= entries@.len(),
                    vals.len() == i,
                    forall|j: int| 0 <= j < i ==> json_error(#[trigger] entries@[j].1) is None,
                    forall|j: int| 0 <= j < i ==> json_value(#[trigger] entries@[j].1, vals[j]),
                    table_entries(t) == inserted_all(Seq::empty(), entry_keys(entries@.take(i as int)), vals),
                decreases entries@.len() - i,
            {
                proof {
                    assert(decreases_to!(*n => (*n)->Object_0));
                    lemma_error_in_entries_prefix(entries@, i as int);
                }
                let v = match lower(&entries[i].1) {
                    Ok(v) => v,
                    Err(e) => return Err(e),
                };
                let key = entries[i].0.clone();
                proof {
                    assert(entry_keys(entries@.take(i + 1)).drop_last() =~= entry_keys(entries@.take(i as int)));
                    assert(vals.push(v).drop_last() =~= vals);
                }
                t.insert(key, v);
                proof { vals = vals.push(v); }
                i += 1;
            }
            proof {
                assert(entries@.take(i as int) =~= entries@);
                assert(entries@.skip(i as int) =~= Seq::<(String, JsonNode)>::empty());
                if i > 0 {
                    lemma_error_in_entries_prefix(entries@, i - 1);
                }
            }
            let v = Value::Table(t);
            Ok(v)
        },
    }
}

/// The number of chars in the first `n` lines of `s`, each with its newline.
pub open spec fn lines_prefix(s: Seq<char>, n: nat) -> nat
    decreases s.len(),
{
    if n == 0 || s.len() == 0 {
        0
    } else if s[0] == '\n' {
        1 + lines_prefix(s.drop_first(), (n - 1) as nat)
    } else {
        1 + lines_prefix(s.drop_first(), n)
    }
}

/// The byte offset of `serde_json`'s 1-based line and 1-based byte column in `s`.
pub open spec fn json_offset(s: Seq<char>, line: usize, column: usize) -> Option<usize> {
    if line == 0 {
        None
    } else {
        let start = utf8_len(s.take(lines_prefix(s, (line - 1) as nat) as int));
        let skip: int = if column == 0 { 0 } else { column - 1 };
        if start + skip <= usize::MAX { Some((start + skip) as usize) } else { None }
    }
}

proof fn lemma_lines_prefix_step(s: Seq<char>, i: int, n: nat)
    requires
        0 <= i < s.len(),
        n > 0,
    ensures
        lines_prefix(s.skip(i), n) == 1 + lines_prefix(s.skip(i + 1), if s[i] == '\n' { (n - 1) as nat } else { n }),
{
    assert(s.skip(i).drop_first() =~= s.skip(i + 1));
}

proof fn lemma_lines_prefix_bound(s: Seq<char>, n: nat)
    ensures
        lines_prefix(s, n) <= s.len(),
    decreases s.len(),
{
    if n > 0 && s.len() > 0 {
        if s[0] == '\n' {
            lemma_lines_prefix_bound(s.drop_first(), (n - 1) as nat);
        } else {
            lemma_lines_prefix_bound(s.drop_first(), n);
        }
    }
}

/// Byte offset of `serde_json`'s 1-based line and 1-based byte column; `None` for line 0 or
/// when the sum does not fit.
pub fn offset(source: &str, line: usize, column: usize) -> (r: Option<usize>)
    ensures
        r == json_offset(source@, line, column),
{
    if line == 0 {
        return None;
    }
    let ghost s = source@;
    let lines = line - 1;
    let mut remaining: usize = lines;
    let mut bytes: usize = 0;
    let ghost mut k: int = 0;
    proof {
        assert(s.skip(0) =~= s);
        assert(s.take(0) =~= Seq::<char>::empty());
    }
    for c in it: source.chars()
        invariant
            s == source@,
            it.seq() == s,
            0 <= k <= it.index(),
            remaining <= lines,
            lines_prefix(s, lines as nat) == k + lines_prefix(s.skip(it.index() as int), remaining as nat),
            remaining > 0 ==> k == it.index(),
            bytes == utf8_len(s.take(k)),
            lines == line - 1,
            line > 0,
    {
        if remaining > 0 {
            proof {
                lemma_lines_prefix_step(s, k, remaining as nat);
                lemma_utf8_len_take_next(s, k);
            }
            let w = char_width(c);
            if bytes > usize::MAX - w {
                proof { self::lemma_offset_overflow(s, k + 1, lines as nat, column); }
                return None;
            }
            bytes = bytes + w;
            if c == '\n' {
                remaining = remaining - 1;
            }
            proof { k = k + 1; }
        }
    }
    proof {
        assert(s.skip(s.len() as int) =~= Seq::<char>::empty());
    }
    let skip = if column == 0 { 0 } else { column - 1 };
    if bytes <= usize::MAX - skip {
        Some(bytes + skip)
    } else {
        None
    }
}

proof fn lemma_offset_overflow(s: Seq<char>, k: int, n: nat, column: usize)
    requires
        0 <= k <= lines_prefix(s, n),
        utf8_len(s.take(k)) > usize::MAX,
    ensures
        utf8_len(s.take(lines_prefix(s, n) as int)) > usize::MAX,
{
    lemma_lines_prefix_bound(s, n);
    if k < lines_prefix(s, n) {
        crate::text::lemma_utf8_len_take_strict(s, k, lines_prefix(s, n) as int);
    }
}

/// `message` without the trailing ` at line L column C` that `serde_json` appends.
pub open spec fn strip_location(message: Seq<char>, line: usize, column: usize) -> Seq<char> {
    let suffix = " at line "@ + decimal(line as nat) + " column "@ + decimal(column as nat);
    if suffix.len() <= message.len() && message.skip(message.len() - suffix.len()) == suffix {
        message.take(message.len() - suffix.len())
    } else {
        message
    }
}

/// `message` with the ` at line L column C` suffix removed, when it ends with it.
fn strip_location_suffix(message: &str, line: usize, column: usize) -> (r: String)
    ensures
        r@ == strip_location(message@, line, column),
{
    let mut suffix = String::from_str(" at line ");
    push_decimal(&mut suffix, line as u64);
    suffix.append(" column ");
    push_decimal(&mut suffix, column as u64);
    let n = message.unicode_len();
    let m = suffix.as_str().unicode_len();
    if m <= n {
        let tail = message.substring_char(n - m, n);
        if crate::text::str_eq(tail, suffix.as_str()) {
            let head = message.substring_char(0, n - m);
            proof {
                assert(message@.skip(n - m) =~= message@.subrange(n - m, n as int));
                assert(message@.take(n - m) =~= message@.subrange(0, n - m));
            }
            return String::from_str(head);
        }
        proof {
            assert(message@.skip(n - m) =~= message@.subrange(n - m, n as int));
        }
    }
    String::from_str(message)
}

/// What parsing `source` as JSON gives: the lowered document, its lowering error, or the syntax
/// error with its location taken out of the message and turned into a byte offset.
pub open spec fn json_parses_to(source: Seq<char>, r: Result<Value, ParseError>) -> bool {
    match json_document(source) {
        Ok(node) => json_lowers(node, r),
        Err(e) => match r {
            Err(pe) => pe.message@ == strip_location(e.message@, e.line, e.column)
                && pe.offset == json_offset(source, e.line, e.column),
            Ok(_) => false,
        },
    }
}

impl Format for Json {
    open spec fn spec_name(&self) -> Seq<char> {
        "json"@
    }

    open spec fn parses_to(&self, source: Seq<char>, r: Result<Value, ParseError>) -> bool {
        json_parses_to(source, r)
    }

    fn name(&self) -> (n: &'static str) {
        "json"
    }

    fn parse(&self, source: &str) -> (r: Result<Value, ParseError>) {
        match parse_json(source) {
            Ok(node) => lower(&node),
            Err(e) => {
                let message = strip_location_suffix(e.message.as_str(), e.line, e.column);
                Err(ParseError { message, offset: offset(source, e.line, e.column) })
            },
        }
    }
}

} // verus!
