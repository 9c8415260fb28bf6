//! The value tree that every format lowers into, and the ordered table it uses for maps.
use vstd::prelude::*;
use indexmap::IndexMap;

verus! {

/// A datetime as written in the source file, kept as its text.
#[derive(Debug, Clone, PartialEq, Eq, Hash)]
pub struct Datetime(pub String);

/// The canonical model every format lowers into.
///
/// A float is held as the bits of its IEEE-754 `f64` (`f64::to_bits`), which is how it is
/// carried through the library unchanged; no arithmetic is done on it.
#[derive(Debug, PartialEq, Eq)]
pub enum Value {
    Null,
    Bool(bool),
    Int(i64),
    Float(u64),
    Str(String),
    Sequence(Vec<Value>),
    Table(Table),
    Datetime(Datetime),
}

/// An insertion-ordered map from string keys to values, held in an `indexmap::IndexMap`.
#[verifier::external_body]
#[derive(Debug, PartialEq, Eq)]
pub struct Table {
    map: IndexMap<String, Value>,
}

/// The entries of a table, in insertion order.
pub uninterp spec fn table_entries(t: Table) -> Seq<(String, Value)>;

/// The first position in `entries` whose key has the chars `key`.
pub open spec fn index_of(entries: Seq<(String, Value)>, key: Seq<char>) -> Option<int> {
    if exists|i: int| 0 <= i < entries.len() && entries[i].0@ == key {
        Some(choose|i: int| 0 <= i < entries.len() && entries[i].0@ == key
            && forall|j: int| 0 <= j < i ==> entries[j].0@ != key)
    } else {
        None
    }
}

/// The value stored under `key`, if any.
pub open spec fn lookup(entries: Seq<(String, Value)>, key: Seq<char>) -> Option<Value> {
    match index_of(entries, key) {
        Some(i) => Some(entries[i].1),
        None => None,
    }
}

/// The entries after inserting `key` with `value`: an existing key keeps its place and gets the
/// new value, a new key goes last.
pub open spec fn inserted(entries: Seq<(String, Value)>, key: String, value: Value) -> Seq<(String, Value)> {
    match index_of(entries, key@) {
        Some(i) => entries.update(i, (entries[i].0, value)),
        None => entries.push((key, value)),
    }
}

/// The entries after inserting each `keys[i]` with `values[i]` in turn, starting from `entries`.
pub open spec fn inserted_all(entries: Seq<(String, Value)>, keys: Seq<String>, values: Seq<Value>) -> Seq<(String, Value)>
    decreases keys.len(),
{
    if keys.len() == 0 || values.len() == 0 {
        entries
    } else {
        inserted(inserted_all(entries, keys.drop_last(), values.drop_last()), keys.last(), values.last())
    }
}

/// `index_of` finds the first matching position.
pub proof fn lemma_index_of(entries: Seq<(String, Value)>, key: Seq<char>)
    ensures
        match index_of(entries, key) {
            Some(i) => 0 <= i < entries.len() && entries[i].0@ == key
                && forall|j: int| 0 <= j < i ==> entries[j].0@ != key,
            None => forall|j: int| 0 <= j < entries.len() ==> entries[j].0@ != key,
        },
{
    if exists|i: int| 0 <= i < entries.len() && entries[i].0@ == key {
        let w = choose|i: int| 0 <= i < entries.len() && entries[i].0@ == key;
        lemma_first_match(entries, key, w);
    }
}

/// Inserting a key leaves what every other key reads unchanged.
pub proof fn law_lookup_ignores_other_keys(entries: Seq<(String, Value)>, key: String, value: Value, other: Seq<char>)
    requires
        key@ != other,
    ensures
        lookup(inserted(entries, key, value), other) == lookup(entries, other),
{
    let after = inserted(entries, key, value);
    lemma_index_of(entries, key@);
    lemma_index_of(entries, other);
    lemma_index_of(after, other);
    let n = entries.len() as int;
    match (index_of(entries, other), index_of(after, other)) {
        (Some(a), Some(b)) => {
            if a < b {
            } else if b < a {
            }
            assert(after[a] == entries[a]);
        },
        (None, Some(b)) => {
            if b < n {
            }
        },
        (Some(a), None) => {
            assert(after[a].0 == entries[a].0);
        },
        (None, None) => {},
    }
}

proof fn lemma_first_match(entries: Seq<(String, Value)>, key: Seq<char>, w: int)
    requires
        0 <= w < entries.len(),
        entries[w].0@ == key,
    ensures
        exists|i: int| 0 <= i < entries.len() && entries[i].0@ == key
            && forall|j: int| 0 <= j < i ==> entries[j].0@ != key,
    decreases w,
{
    if exists|j: int| 0 <= j < w && entries[j].0@ == key {
        let v = choose|j: int| 0 <= j < w && entries[j].0@ == key;
        lemma_first_match(entries, key, v);
    }
}

impl Table {
    /// `IndexMap::new`: an empty table.
    #[verifier::external_body]
    pub fn new() -> (t: Table)
        ensures
            table_entries(t) == Seq::<(String, Value)>::empty(),
    {
        Table { map: IndexMap::new() }
    }

    /// `IndexMap::insert`: an existing key keeps its position and takes the new value, and the
    /// old value is returned; a new key is appended and `None` is returned.
    #[verifier::external_body]
    pub fn insert(&mut self, key: String, value: Value) -> (old_value: Option<Value>)
        ensures
            table_entries(*final(self)) == inserted(table_entries(*old(self)), key, value),
            old_value == lookup(table_entries(*old(self)), key@),
    {
        self.map.insert(key, value)
    }

    /// `IndexMap::get`: the value stored under `key`.
    #[verifier::external_body]
    pub fn get(&self, key: &str) -> (v: Option<&Value>)
        ensures
            match v {
                Some(x) => lookup(table_entries(*self), key@) == Some(*x),
                None => lookup(table_entries(*self), key@) is None,
            },
    {
        self.map.get(key)
    }

    /// `IndexMap::len`: the number of entries.
    #[verifier::external_body]
    pub fn len(&self) -> (n: usize)
        ensures
            n == table_entries(*self).len(),
    {
        self.map.len()
    }

    /// `IndexMap::get_index`: the entry at position `i` in insertion order.
    #[verifier::external_body]
    pub fn get_index(&self, i: usize) -> (e: Option<(&String, &Value)>)
        ensures
            match e {
                Some((k, v)) => i < table_entries(*self).len() && *k == table_entries(*self)[i as int].0
                    && *v == table_entries(*self)[i as int].1,
                None => i >= table_entries(*self).len(),
            },
    {
        self.map.get_index(i)
    }

    /// The keys, in insertion order.
    pub fn keys(&self) -> (ks: Vec<String>)
        ensures
            ks@.len() == table_entries(*self).len(),
            forall|i: int| 0 <= i < ks@.len() ==> ks@[i] == table_entries(*self)[i].0,
    {
        let n = self.len();
        let mut ks: Vec<String> = Vec::new();
        let mut i: usize = 0;
        while i < n
            invariant
                n == table_entries(*self).len(),
                i <= n,
                ks@.len() == i,
                forall|j: int| 0 <= j < i ==> ks@[j] == table_entries(*self)[j].0,
            decreases n - i,
        {
            match self.get_index(i) {
                Some((k, _)) => ks.push(k.clone()),
                None => {},
            }
            i += 1;
        }
        ks
    }
}

impl Value {
    /// Human-readable name of the variant, for error messages.
    pub fn kind(&self) -> (k: &'static str)
        ensures
            k@ == kind_name(*self),
    {
        match self {
            Value::Null => "null",
            Value::Bool(_) => "bool",
            Value::Int(_) => "integer",
            Value::Float(_) => "float",
            Value::Str(_) => "string",
            Value::Sequence(_) => "sequence",
            Value::Table(_) => "table",
            Value::Datetime(_) => "datetime",
        }
    }
}

/// The name of a value's variant as error messages print it.
pub open spec fn kind_name(v: Value) -> Seq<char> {
    match v {
        Value::Null => "null"@,
        Value::Bool(_) => "bool"@,
        Value::Int(_) => "integer"@,
        Value::Float(_) => "float"@,
        Value::Str(_) => "string"@,
        Value::Sequence(_) => "sequence"@,
        Value::Table(_) => "table"@,
        Value::Datetime(_) => "datetime"@,
    }
}

} // verus!
