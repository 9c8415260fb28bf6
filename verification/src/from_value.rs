//! Strict conversion from the value tree into Rust types.
use vstd::prelude::*;
use std::collections::{BTreeMap, HashMap, HashSet, VecDeque};
use std::hash::Hash;
use indexmap::IndexMap;
use vstd::std_specs::hash::obeys_key_model;
use std::path::PathBuf;
use std::rc::Rc;
use std::sync::Arc;
use vstd::string::StringExecFns;
use crate::error::{type_view, ConfigError, ErrorView};
use crate::path::{render_path, PathStack, Segment, SegmentView};
use crate::value::{table_entries, Value, Datetime, Table};

verus! {

/// Conversion from the value tree into a Rust type.
///
/// `path` locates `value` in the document; every implementation pushes onto it before
/// recursing and leaves it as it found it.
///
/// An impl that states its conversion sets `obeys_conversion_spec` to `true` and says in
/// `conversion_error` and `converts_to` what `from_value` gives; the library's own impls do (a generic one whenever its parts do).
/// An impl written elsewhere (such as the one the derive generates) keeps the default `false`,
/// and then the contract of its `from_value` claims nothing of the result, only that `path` is
/// left as it was found; the defaults of `conversion_error` and `converts_to` are placeholders
/// with no meaning of their own.
pub trait FromValue: Sized {
    /// Whether `from_value` follows `conversion_error` and `converts_to`.
    open spec fn obeys_conversion_spec() -> bool {
        false
    }

    /// The error that converting `value` at `path` gives, if any.
    open spec fn conversion_error(value: Value, path: Seq<SegmentView>) -> Option<ErrorView> {
        arbitrary()
    }

    /// Whether `out` is what converting `value` gives.
    open spec fn converts_to(value: Value, out: Self) -> bool {
        arbitrary()
    }

    /// Returns a [`ConfigError`] when `value` does not have the shape `Self` needs.
    fn from_value(value: &Value, path: &mut PathStack) -> (r: Result<Self, ConfigError>)
        ensures
            final(path)@ == old(path)@,
            Self::obeys_conversion_spec() ==> match r {
                Ok(x) => Self::conversion_error(*value, old(path)@) is None && Self::converts_to(*value, x),
                Err(e) => Self::conversion_error(*value, old(path)@) == Some(e@),
            },
    ;
}

/// The error converting `v` at `path` into an integer type named `name` with range `lo..=hi`:
/// a non-integer is a type error, an integer outside the range is out of range.
pub open spec fn int_error(v: Value, path: Seq<SegmentView>, lo: int, hi: int, name: Seq<char>) -> Option<ErrorView> {
    match v {
        Value::Int(i) => if lo <= i <= hi {
            None
        } else {
            Some(ErrorView::OutOfRange { path: render_path(path), value: i, target: name })
        },
        _ => Some(type_view(render_path(path), name, v)),
    }
}

/// Integers are range-checked, never wrapped, and nothing but an integer converts into one: an
/// integer in range is accepted, one out of range is an out-of-range error carrying it, and a
/// float (even `1.0`), a string or anything else is a type error.
pub proof fn law_integers_are_strict(v: Value, path: Seq<SegmentView>, lo: int, hi: int, name: Seq<char>)
    ensures
        int_error(v, path, lo, hi, name) is None <==> (v is Int && lo <= v->Int_0 <= hi),
        v is Int && !(lo <= v->Int_0 <= hi) ==> int_error(v, path, lo, hi, name)
            == Some(ErrorView::OutOfRange { path: render_path(path), value: v->Int_0, target: name }),
        !(v is Int) ==> int_error(v, path, lo, hi, name) == Some(type_view(render_path(path), name, v)),
{
}

/// Only a boolean converts into `bool`: an integer, a string or anything else is a type error.
pub proof fn law_only_booleans_are_bool(v: Value, path: Seq<SegmentView>)
    ensures
        <bool as FromValue>::conversion_error(v, path) is None <==> v is Bool,
        !(v is Bool) ==> <bool as FromValue>::conversion_error(v, path) == Some(type_view(render_path(path), "bool"@, v)),
{
}

/// Reads an integer in `lo..=hi` from `value`; never wraps.
fn int_in_range(value: &Value, path: &PathStack, lo: i64, hi: i64, name: &'static str) -> (r: Result<i64, ConfigError>)
    ensures
        match r {
            Ok(i) => int_error(*value, path@, lo as int, hi as int, name@) is None && *value == Value::Int(i)
                && lo <= i <= hi,
            Err(e) => int_error(*value, path@, lo as int, hi as int, name@) == Some(e@),
        },
{
    match value {
        Value::Int(i) => if lo <= *i && *i <= hi {
            Ok(*i)
        } else {
            Err(ConfigError::out_of_range(path, *i, name))
        },
        _ => Err(ConfigError::type_mismatch(path, name, value)),
    }
}

impl FromValue for i8 {
    open spec fn obeys_conversion_spec() -> bool {
        true
    }

    open spec fn conversion_error(value: Value, path: Seq<SegmentView>) -> Option<ErrorView> {
        int_error(value, path, i8::MIN as int, i8::MAX as int, "i8"@)
    }

    open spec fn converts_to(value: Value, out: Self) -> bool {
        value == Value::Int(out as i64)
    }

    fn from_value(value: &Value, path: &mut PathStack) -> (r: Result<Self, ConfigError>) {
        let i = int_in_range(value, path, i8::MIN as i64, i8::MAX as i64, "i8")?;
        Ok(i as i8)
    }
}

impl FromValue for i16 {
    open spec fn obeys_conversion_spec() -> bool {
        true
    }

    open spec fn conversion_error(value: Value, path: Seq<SegmentView>) -> Option<ErrorView> {
        int_error(value, path, i16::MIN as int, i16::MAX as int, "i16"@)
    }

    open spec fn converts_to(value: Value, out: Self) -> bool {
        value == Value::Int(out as i64)
    }

    fn from_value(value: &Value, path: &mut PathStack) -> (r: Result<Self, ConfigError>) {
        let i = int_in_range(value, path, i16::MIN as i64, i16::MAX as i64, "i16")?;
        Ok(i as i16)
    }
}

impl FromValue for i32 {
    open spec fn obeys_conversion_spec() -> bool {
        true
    }

    open spec fn conversion_error(value: Value, path: Seq<SegmentView>) -> Option<ErrorView> {
        int_error(value, path, i32::MIN as int, i32::MAX as int, "i32"@)
    }

    open spec fn converts_to(value: Value, out: Self) -> bool {
        value == Value::Int(out as i64)
    }

    fn from_value(value: &Value, path: &mut PathStack) -> (r: Result<Self, ConfigError>) {
        let i = int_in_range(value, path, i32::MIN as i64, i32::MAX as i64, "i32")?;
        Ok(i as i32)
    }
}

impl FromValue for i64 {
    open spec fn obeys_conversion_spec() -> bool {
        true
    }

    open spec fn conversion_error(value: Value, path: Seq<SegmentView>) -> Option<ErrorView> {
        int_error(value, path, i64::MIN as int, i64::MAX as int, "i64"@)
    }

    open spec fn converts_to(value: Value, out: Self) -> bool {
        value == Value::Int(out)
    }

    fn from_value(value: &Value, path: &mut PathStack) -> (r: Result<Self, ConfigError>) {
        int_in_range(value, path, i64::MIN, i64::MAX, "i64")
    }
}

impl FromValue for i128 {
    open spec fn obeys_conversion_spec() -> bool {
        true
    }

    open spec fn conversion_error(value: Value, path: Seq<SegmentView>) -> Option<ErrorView> {
        int_error(value, path, i64::MIN as int, i64::MAX as int, "i128"@)
    }

    open spec fn converts_to(value: Value, out: Self) -> bool {
        i64::MIN <= out <= i64::MAX && value == Value::Int(out as i64)
    }

    fn from_value(value: &Value, path: &mut PathStack) -> (r: Result<Self, ConfigError>) {
        let i = int_in_range(value, path, i64::MIN, i64::MAX, "i128")?;
        Ok(i as i128)
    }
}

impl FromValue for isize {
    open spec fn obeys_conversion_spec() -> bool {
        true
    }

    open spec fn conversion_error(value: Value, path: Seq<SegmentView>) -> Option<ErrorView> {
        int_error(value, path, isize::MIN as int, isize::MAX as int, "isize"@)
    }

    open spec fn converts_to(value: Value, out: Self) -> bool {
        value == Value::Int(out as i64)
    }

    fn from_value(value: &Value, path: &mut PathStack) -> (r: Result<Self, ConfigError>) {
        let i = int_in_range(value, path, isize::MIN as i64, isize::MAX as i64, "isize")?;
        Ok(i as isize)
    }
}

impl FromValue for u8 {
    open spec fn obeys_conversion_spec() -> bool {
        true
    }

    open spec fn conversion_error(value: Value, path: Seq<SegmentView>) -> Option<ErrorView> {
        int_error(value, path, 0, u8::MAX as int, "u8"@)
    }

    open spec fn converts_to(value: Value, out: Self) -> bool {
        value == Value::Int(out as i64)
    }

    fn from_value(value: &Value, path: &mut PathStack) -> (r: Result<Self, ConfigError>) {
        let i = int_in_range(value, path, 0, u8::MAX as i64, "u8")?;
        Ok(i as u8)
    }
}

impl FromValue for u16 {
    open spec fn obeys_conversion_spec() -> bool {
        true
    }

    open spec fn conversion_error(value: Value, path: Seq<SegmentView>) -> Option<ErrorView> {
        int_error(value, path, 0, u16::MAX as int, "u16"@)
    }

    open spec fn converts_to(value: Value, out: Self) -> bool {
        value == Value::Int(out as i64)
    }

    fn from_value(value: &Value, path: &mut PathStack) -> (r: Result<Self, ConfigError>) {
        let i = int_in_range(value, path, 0, u16::MAX as i64, "u16")?;
        Ok(i as u16)
    }
}

impl FromValue for u32 {
    open spec fn obeys_conversion_spec() -> bool {
        true
    }

    open spec fn conversion_error(value: Value, path: Seq<SegmentView>) -> Option<ErrorView> {
        int_error(value, path, 0, u32::MAX as int, "u32"@)
    }

    open spec fn converts_to(value: Value, out: Self) -> bool {
        value == Value::Int(out as i64)
    }

    fn from_value(value: &Value, path: &mut PathStack) -> (r: Result<Self, ConfigError>) {
        let i = int_in_range(value, path, 0, u32::MAX as i64, "u32")?;
        Ok(i as u32)
    }
}

impl FromValue for u64 {
    open spec fn obeys_conversion_spec() -> bool {
        true
    }

    open spec fn conversion_error(value: Value, path: Seq<SegmentView>) -> Option<ErrorView> {
        int_error(value, path, 0, i64::MAX as int, "u64"@)
    }

    open spec fn converts_to(value: Value, out: Self) -> bool {
        out <= i64::MAX && value == Value::Int(out as i64)
    }

    fn from_value(value: &Value, path: &mut PathStack) -> (r: Result<Self, ConfigError>) {
        let i = int_in_range(value, path, 0, i64::MAX, "u64")?;
        Ok(i as u64)
    }
}

impl FromValue for u128 {
    open spec fn obeys_conversion_spec() -> bool {
        true
    }

    open spec fn conversion_error(value: Value, path: Seq<SegmentView>) -> Option<ErrorView> {
        int_error(value, path, 0, i64::MAX as int, "u128"@)
    }

    open spec fn converts_to(value: Value, out: Self) -> bool {
        out <= i64::MAX && value == Value::Int(out as i64)
    }

    fn from_value(value: &Value, path: &mut PathStack) -> (r: Result<Self, ConfigError>) {
        let i = int_in_range(value, path, 0, i64::MAX, "u128")?;
        Ok(i as u128)
    }
}

/// The largest `usize` that an `i64` can hold.
pub open spec fn usize_hi() -> int {
    if usize::MAX > i64::MAX { i64::MAX as int } else { usize::MAX as int }
}

impl FromValue for usize {
    open spec fn obeys_conversion_spec() -> bool {
        true
    }

    open spec fn conversion_error(value: Value, path: Seq<SegmentView>) -> Option<ErrorView> {
        int_error(value, path, 0, usize_hi(), "usize"@)
    }

    open spec fn converts_to(value: Value, out: Self) -> bool {
        out <= usize_hi() && value == Value::Int(out as i64)
    }

    fn from_value(value: &Value, path: &mut PathStack) -> (r: Result<Self, ConfigError>) {
        let hi: i64 = if usize::MAX as u64 > i64::MAX as u64 { i64::MAX } else { usize::MAX as i64 };
        let i = int_in_range(value, path, 0, hi, "usize")?;
        Ok(i as usize)
    }
}

impl FromValue for bool {
    open spec fn obeys_conversion_spec() -> bool {
        true
    }

    open spec fn conversion_error(value: Value, path: Seq<SegmentView>) -> Option<ErrorView> {
        match value {
            Value::Bool(_) => None,
            _ => Some(type_view(render_path(path), "bool"@, value)),
        }
    }

    open spec fn converts_to(value: Value, out: Self) -> bool {
        value == Value::Bool(out)
    }

    fn from_value(value: &Value, path: &mut PathStack) -> (r: Result<Self, ConfigError>) {
        match value {
            Value::Bool(b) => Ok(*b),
            _ => Err(ConfigError::type_mismatch(path, "bool", value)),
        }
    }
}

impl FromValue for String {
    open spec fn obeys_conversion_spec() -> bool {
        true
    }

    /// A string, or a datetime by its text.
    open spec fn conversion_error(value: Value, path: Seq<SegmentView>) -> Option<ErrorView> {
        match value {
            Value::Str(_) => None,
            Value::Datetime(_) => None,
            _ => Some(type_view(render_path(path), "string"@, value)),
        }
    }

    open spec fn converts_to(value: Value, out: Self) -> bool {
        match value {
            Value::Str(s) => out == s,
            Value::Datetime(d) => out == d.0,
            _ => false,
        }
    }

    fn from_value(value: &Value, path: &mut PathStack) -> (r: Result<Self, ConfigError>) {
        match value {
            Value::Str(s) => Ok(s.clone()),
            Value::Datetime(d) => Ok(d.0.clone()),
            _ => Err(ConfigError::type_mismatch(path, "string", value)),
        }
    }
}

impl FromValue for Datetime {
    open spec fn obeys_conversion_spec() -> bool {
        true
    }

    open spec fn conversion_error(value: Value, path: Seq<SegmentView>) -> Option<ErrorView> {
        match value {
            Value::Datetime(_) => None,
            _ => Some(type_view(render_path(path), "datetime"@, value)),
        }
    }

    open spec fn converts_to(value: Value, out: Self) -> bool {
        match value {
            Value::Datetime(d) => out.0 == d.0,
            _ => false,
        }
    }

    fn from_value(value: &Value, path: &mut PathStack) -> (r: Result<Self, ConfigError>) {
        match value {
            Value::Datetime(d) => Ok(Datetime(d.0.clone())),
            _ => Err(ConfigError::type_mismatch(path, "datetime", value)),
        }
    }
}

impl FromValue for char {
    open spec fn obeys_conversion_spec() -> bool {
        true
    }

    /// A string of exactly one char.
    open spec fn conversion_error(value: Value, path: Seq<SegmentView>) -> Option<ErrorView> {
        match value {
            Value::Str(s) => if s@.len() == 1 { None } else { Some(type_view(render_path(path), "char"@, value)) },
            _ => Some(type_view(render_path(path), "char"@, value)),
        }
    }

    open spec fn converts_to(value: Value, out: Self) -> bool {
        match value {
            Value::Str(s) => s@ == seq![out],
            _ => false,
        }
    }

    fn from_value(value: &Value, path: &mut PathStack) -> (r: Result<Self, ConfigError>) {
        match value {
            Value::Str(s) => {
                if s.unicode_len() == 1 {
                    let c = s.get_char(0);
                    assert(s@ =~= seq![c]);
                    Ok(c)
                } else {
                    Err(ConfigError::type_mismatch(path, "char", value))
                }
            },
            _ => Err(ConfigError::type_mismatch(path, "char", value)),
        }
    }
}

/// `std::path::PathBuf`, carried through as it is.
#[verifier::external_type_specification]
#[verifier::external_body]
pub struct ExPathBuf(PathBuf);

/// The path that `PathBuf::from` builds from a string with the chars `s`.
pub uninterp spec fn path_buf_of(s: Seq<char>) -> PathBuf;

/// `PathBuf::from` on a copy of `s`: the path is a function of the string's text alone.
#[verifier::external_body]
fn path_buf_from(s: &String) -> (p: PathBuf)
    ensures
        p == path_buf_of(s@),
{
    PathBuf::from(s.clone())
}

impl FromValue for PathBuf {
    open spec fn obeys_conversion_spec() -> bool {
        true
    }

    /// A string, taken as a path.
    open spec fn conversion_error(value: Value, path: Seq<SegmentView>) -> Option<ErrorView> {
        match value {
            Value::Str(_) => None,
            _ => Some(type_view(render_path(path), "path"@, value)),
        }
    }

    /// The path built from the string's text.
    open spec fn converts_to(value: Value, out: Self) -> bool {
        match value {
            Value::Str(s) => out == path_buf_of(s@),
            _ => false,
        }
    }

    fn from_value(value: &Value, path: &mut PathStack) -> (r: Result<Self, ConfigError>) {
        match value {
            Value::Str(s) => Ok(path_buf_from(s)),
            _ => Err(ConfigError::type_mismatch(path, "path", value)),
        }
    }
}

impl<T: FromValue> FromValue for Option<T> {
    /// It states its conversion when its parts do.
    open spec fn obeys_conversion_spec() -> bool {
        T::obeys_conversion_spec()
    }

    /// `null` is `None`; anything else converts as `T`.
    open spec fn conversion_error(value: Value, path: Seq<SegmentView>) -> Option<ErrorView> {
        match value {
            Value::Null => None,
            _ => T::conversion_error(value, path),
        }
    }

    open spec fn converts_to(value: Value, out: Self) -> bool {
        match value {
            Value::Null => out is None,
            _ => match out {
                Some(x) => T::converts_to(value, x),
                None => false,
            },
        }
    }

    fn from_value(value: &Value, path: &mut PathStack) -> (r: Result<Self, ConfigError>) {
        match value {
            Value::Null => Ok(None),
            _ => match T::from_value(value, path) {
                Ok(x) => Ok(Some(x)),
                Err(e) => Err(e),
            },
        }
    }
}

impl<T: FromValue> FromValue for Box<T> {
    /// It states its conversion when its parts do.
    open spec fn obeys_conversion_spec() -> bool {
        T::obeys_conversion_spec()
    }

    open spec fn conversion_error(value: Value, path: Seq<SegmentView>) -> Option<ErrorView> {
        T::conversion_error(value, path)
    }

    open spec fn converts_to(value: Value, out: Self) -> bool {
        T::converts_to(value, *out)
    }

    fn from_value(value: &Value, path: &mut PathStack) -> (r: Result<Self, ConfigError>) {
        match T::from_value(value, path) {
            Ok(x) => Ok(Box::new(x)),
            Err(e) => Err(e),
        }
    }
}

/// The first error converting `items[i..]` as `T`, each at `path` with its index pushed.
pub open spec fn items_error<T: FromValue>(items: Seq<Value>, path: Seq<SegmentView>, i: int) -> Option<ErrorView>
    decreases items.len() - i,
{
    if i < 0 || i >= items.len() {
        None
    } else {
        match T::conversion_error(items[i], path.push(SegmentView::Index(i as usize))) {
            Some(e) => Some(e),
            None => items_error::<T>(items, path, i + 1),
        }
    }
}

impl<T: FromValue> FromValue for Vec<T> {
    /// It states its conversion when its parts do.
    open spec fn obeys_conversion_spec() -> bool {
        T::obeys_conversion_spec()
    }

    /// A sequence whose items all convert; the first failing item's error, at its index.
    open spec fn conversion_error(value: Value, path: Seq<SegmentView>) -> Option<ErrorView> {
        match value {
            Value::Sequence(items) => items_error::<T>(items@, path, 0),
            _ => Some(type_view(render_path(path), "sequence"@, value)),
        }
    }

    open spec fn converts_to(value: Value, out: Self) -> bool {
        match value {
            Value::Sequence(items) => out@.len() == items@.len()
                && forall|i: int| 0 <= i < items@.len() ==> T::converts_to(#[trigger] items@[i], out@[i]),
            _ => false,
        }
    }

    fn from_value(value: &Value, path: &mut PathStack) -> (r: Result<Self, ConfigError>) {
        let items = match value {
            Value::Sequence(items) => items,
            _ => return Err(ConfigError::type_mismatch(path, "sequence", value)),
        };
        let ghost start = path@;
        let mut out: Vec<T> = Vec::new();
        let mut i: usize = 0;
        while i < items.len()
            invariant
                *value == Value::Sequence(*items),
                path@ == start,
                start == old(path)@,
                i <= items@.len(),
                out@.len() == i,
                T::obeys_conversion_spec() ==> items_error::<T>(items@, start, 0) == items_error::<T>(items@, start, i as int),
                T::obeys_conversion_spec() ==> forall|j: int| 0 <= j < i ==> T::converts_to(#[trigger] items@[j], out@[j]),
            decreases items@.len() - i,
        {
            path.push(Segment::Index(i));
            let r = T::from_value(&items[i], path);
            path.pop();
            proof {
                assert(start.push(SegmentView::Index(i)).drop_last() =~= start);
            }
            match r {
                Ok(x) => out.push(x),
                Err(e) => return Err(e),
            }
            i += 1;
        }
        Ok(out)
    }
}

/// The first error converting the values of `entries[i..]` as `T`, each at `path` with its key
/// pushed.
pub open spec fn entries_error<T: FromValue>(entries: Seq<(String, Value)>, path: Seq<SegmentView>, i: int) -> Option<ErrorView>
    decreases entries.len() - i,
{
    if i < 0 || i >= entries.len() {
        None
    } else {
        match T::conversion_error(entries[i].1, path.push(SegmentView::Key(entries[i].0@))) {
            Some(e) => Some(e),
            None => entries_error::<T>(entries, path, i + 1),
        }
    }
}

/// The keys of a table's entries, in order.
pub open spec fn entry_keys(entries: Seq<(String, Value)>) -> Seq<String> {
    entries.map_values(|e: (String, Value)| e.0)
}

/// A map keyed by `String` seen through its keys' text: the value under each text is the value
/// under the key with that text.
pub open spec fn text_keyed<T>(m: Map<String, T>) -> Map<Seq<char>, T> {
    Map::new(
        |s: Seq<char>| exists|k: String| m.contains_key(k) && k@ == s,
        |s: Seq<char>| m[choose|k: String| m.contains_key(k) && k@ == s],
    )
}

/// The text-keyed map that inserting `keys[i]` with `vals[i]` in turn gives, starting empty:
/// a later key with the same text replaces the earlier value.
pub open spec fn inserted_texts<T>(keys: Seq<String>, vals: Seq<T>) -> Map<Seq<char>, T>
    decreases keys.len(),
{
    if keys.len() == 0 || vals.len() == 0 {
        Map::empty()
    } else {
        inserted_texts(keys.drop_last(), vals.drop_last()).insert(keys.last()@, vals.last())
    }
}

/// Whether `outs` holds the conversions of the values of `entries`, entry for entry.
pub open spec fn converts_entries<T: FromValue>(entries: Seq<(String, Value)>, outs: Seq<T>) -> bool {
    &&& outs.len() == entries.len()
    &&& forall|i: int| 0 <= i < entries.len() ==> T::converts_to(entries[i].1, #[trigger] outs[i])
}

/// Whether `outs` holds the conversions of `items`, item for item.
pub open spec fn converts_items<T: FromValue>(items: Seq<Value>, outs: Seq<T>) -> bool {
    &&& outs.len() == items.len()
    &&& forall|i: int| 0 <= i < items.len() ==> T::converts_to(items[i], #[trigger] outs[i])
}

/// What a map with `String` keys converted from the table `value` holds: the entries' values
/// converted as `T`, inserted under their keys in order.
pub open spec fn converts_to_text_map<T: FromValue>(value: Value, contents: Map<Seq<char>, T>) -> bool {
    match value {
        Value::Table(t) => exists|outs: Seq<T>|
            #[trigger] converts_entries::<T>(table_entries(t), outs)
                && contents == inserted_texts(entry_keys(table_entries(t)), outs),
        _ => false,
    }
}

/// `HashMap::insert` with a `String` key: the key with `key`'s text now maps to `value`, every
/// other key keeps its value (`std` compares `String` keys by their text).
#[verifier::external_body]
fn hash_map_insert<T>(m: &mut HashMap<String, T>, key: String, value: T)
    ensures
        text_keyed(final(m)@) == text_keyed(old(m)@).insert(key@, value),
{
    m.insert(key, value);
}

/// `BTreeMap::insert` with a `String` key: the key with `key`'s text now maps to `value`, every
/// other key keeps its value (`String` orders and compares by its text).
#[verifier::external_body]
fn btree_map_insert<T>(m: &mut BTreeMap<String, T>, key: String, value: T)
    ensures
        text_keyed(final(m)@) == text_keyed(old(m)@).insert(key@, value),
{
    m.insert(key, value);
}

proof fn lemma_text_keyed_empty<T>()
    ensures
        text_keyed(Map::<String, T>::empty()) == Map::<Seq<char>, T>::empty(),
{
    assert(text_keyed(Map::<String, T>::empty()) =~= Map::<Seq<char>, T>::empty());
}

/// Converts the values of the entries of `table` as `T`, each at its key; the keys and the
/// converted values, in order.
fn convert_entries<T: FromValue>(table: &Table, path: &mut PathStack) -> (r: Result<Vec<(String, T)>, ConfigError>)
    ensures
        final(path)@ == old(path)@,
        match r {
            Ok(v) => v@.len() == table_entries(*table).len()
                && forall|i: int| 0 <= i < v@.len() ==> (#[trigger] v@[i]).0 == table_entries(*table)[i].0,
            Err(_) => true,
        },
        T::obeys_conversion_spec() ==> match r {
            Ok(v) => entries_error::<T>(table_entries(*table), old(path)@, 0) is None
                && forall|i: int| 0 <= i < v@.len() ==> T::converts_to(table_entries(*table)[i].1, (#[trigger] v@[i]).1),
            Err(e) => entries_error::<T>(table_entries(*table), old(path)@, 0) == Some(e@),
        },
{
    let ghost start = path@;
    let mut out: Vec<(String, T)> = Vec::new();
    let n = table.len();
    let mut i: usize = 0;
    while i < n
        invariant
            n == table_entries(*table).len(),
            path@ == start,
            start == old(path)@,
            i <= n,
            out@.len() == i,
            forall|j: int| 0 <= j < i ==> (#[trigger] out@[j]).0 == table_entries(*table)[j].0,
            T::obeys_conversion_spec() ==> forall|j: int| 0 <= j < i
                ==> T::converts_to(table_entries(*table)[j].1, (#[trigger] out@[j]).1),
            T::obeys_conversion_spec() ==> entries_error::<T>(table_entries(*table), start, 0)
                == entries_error::<T>(table_entries(*table), start, i as int),
        decreases n - i,
    {
        match table.get_index(i) {
            Some((key, item)) => {
                path.push(Segment::Key(key.clone()));
                let r = T::from_value(item, path);
                path.pop();
                proof {
                    assert(start.push(SegmentView::Key(key@)).drop_last() =~= start);
                }
                match r {
                    Ok(x) => {
                        out.push((key.clone(), x));
                    },
                    Err(e) => return Err(e),
                }
            },
            None => {},
        }
        i += 1;
    }
    Ok(out)
}

/// The converted entries split into their keys and their values.
proof fn lemma_split_entries<T: FromValue>(entries: Seq<(String, Value)>, v: Seq<(String, T)>)
    requires
        v.len() == entries.len(),
        forall|i: int| 0 <= i < v.len() ==> (#[trigger] v[i]).0 == entries[i].0,
        T::obeys_conversion_spec() ==> forall|i: int| 0 <= i < v.len() ==> T::converts_to(entries[i].1, (#[trigger] v[i]).1),
    ensures
        v.map_values(|p: (String, T)| p.0) == entry_keys(entries),
        T::obeys_conversion_spec() ==> converts_entries::<T>(entries, v.map_values(|p: (String, T)| p.1)),
{
    assert(v.map_values(|p: (String, T)| p.0) =~= entry_keys(entries));
    let outs = v.map_values(|p: (String, T)| p.1);
    if T::obeys_conversion_spec() {
        assert forall|i: int| 0 <= i < entries.len() implies T::converts_to(entries[i].1, #[trigger] outs[i]) by {
            assert(T::converts_to(entries[i].1, v[i].1));
        }
    }
}

impl<T: FromValue> FromValue for HashMap<String, T> {
    /// It states its conversion when its parts do.
    open spec fn obeys_conversion_spec() -> bool {
        T::obeys_conversion_spec()
    }

    /// A table whose values all convert; the first failing entry's error, at its key.
    open spec fn conversion_error(value: Value, path: Seq<SegmentView>) -> Option<ErrorView> {
        match value {
            Value::Table(t) => entries_error::<T>(table_entries(t), path, 0),
            _ => Some(type_view(render_path(path), "table"@, value)),
        }
    }

    /// The entries' values converted as `T`, under their keys.
    open spec fn converts_to(value: Value, out: Self) -> bool {
        converts_to_text_map::<T>(value, text_keyed(out@))
    }

    fn from_value(value: &Value, path: &mut PathStack) -> (r: Result<Self, ConfigError>) {
        let table = match value {
            Value::Table(t) => t,
            _ => return Err(ConfigError::type_mismatch(path, "table", value)),
        };
        let v = convert_entries::<T>(table, path)?;
        let ghost all = v@;
        let ghost keys = all.map_values(|p: (String, T)| p.0);
        let ghost outs = all.map_values(|p: (String, T)| p.1);
        proof {
            lemma_split_entries::<T>(table_entries(*table), all);
            lemma_text_keyed_empty::<T>();
        }
        let mut out: HashMap<String, T> = HashMap::new();
        let mut rest = v;
        while rest.len() > 0
            invariant
                rest@.len() <= all.len(),
                rest@ == all.subrange(all.len() - rest@.len(), all.len() as int),
                keys == all.map_values(|p: (String, T)| p.0),
                outs == all.map_values(|p: (String, T)| p.1),
                text_keyed(out@) == inserted_texts(keys.take(all.len() - rest@.len()), outs.take(all.len() - rest@.len())),
            decreases rest@.len(),
        {
            let ghost k = all.len() - rest@.len();
            let (key, x) = rest.remove(0);
            proof {
                assert(keys.take(k + 1).drop_last() =~= keys.take(k));
                assert(outs.take(k + 1).drop_last() =~= outs.take(k));
                assert(all[k] == (key, x));
            }
            hash_map_insert(&mut out, key, x);
            assert(rest@ =~= all.subrange(all.len() - rest@.len(), all.len() as int));
        }
        proof {
            assert(keys.take(all.len() as int) =~= keys);
            assert(outs.take(all.len() as int) =~= outs);
            assert(T::obeys_conversion_spec() ==> converts_entries::<T>(table_entries(*table), outs));
        }
        Ok(out)
    }
}

/// The first of two optional errors.
pub open spec fn or_else(a: Option<ErrorView>, b: Option<ErrorView>) -> Option<ErrorView> {
    match a {
        Some(e) => Some(e),
        None => b,
    }
}

/// Converts the item `i` of `items` as `T`, with the index pushed onto `path`.
fn element<T: FromValue>(items: &Vec<Value>, i: usize, path: &mut PathStack) -> (r: Result<T, ConfigError>)
    requires
        i < items@.len(),
    ensures
        final(path)@ == old(path)@,
        T::obeys_conversion_spec() ==> match r {
            Ok(x) => T::conversion_error(items@[i as int], old(path)@.push(SegmentView::Index(i))) is None
                && T::converts_to(items@[i as int], x),
            Err(e) => T::conversion_error(items@[i as int], old(path)@.push(SegmentView::Index(i))) == Some(e@),
        },
{
    path.push(Segment::Index(i));
    let r = T::from_value(&items[i], path);
    path.pop();
    proof { assert(old(path)@.push(SegmentView::Index(i)).drop_last() =~= old(path)@); }
    r
}

/// The items of a tuple value of `n` elements: a sequence of exactly `n` items.
fn tuple_items<'a>(value: &'a Value, path: &PathStack, n: usize) -> (r: Result<&'a Vec<Value>, ConfigError>)
    ensures
        match r {
            Ok(items) => *value == Value::Sequence(*items) && items@.len() == n,
            Err(e) => Some(e@) == tuple_shape_error(*value, path@, n as nat),
        },
{
    match value {
        Value::Sequence(items) => if items.len() == n {
            Ok(items)
        } else {
            Err(ConfigError::length(path, n, items.len()))
        },
        _ => Err(ConfigError::type_mismatch(path, "sequence", value)),
    }
}

/// What is wrong with `v` as a tuple of `n` elements before its items are looked at: anything but
/// a sequence is a type error, a sequence of another length a length error.
pub open spec fn tuple_shape_error(v: Value, path: Seq<SegmentView>, n: nat) -> Option<ErrorView> {
    match v {
        Value::Sequence(items) => if items@.len() == n {
            None
        } else {
            Some(ErrorView::Length { path: render_path(path), expected: n as usize, found: items@.len() as usize })
        },
        _ => Some(type_view(render_path(path), "sequence"@, v)),
    }
}

/// The error converting item `i` of the sequence `v` as `T`.
pub open spec fn item_error<T: FromValue>(v: Value, path: Seq<SegmentView>, i: int) -> Option<ErrorView> {
    T::conversion_error(v->Sequence_0@[i], path.push(SegmentView::Index(i as usize)))
}

impl<A: FromValue, B: FromValue> FromValue for (A, B) {
    /// It states its conversion when its parts do.
    open spec fn obeys_conversion_spec() -> bool {
        A::obeys_conversion_spec() && B::obeys_conversion_spec()
    }

    /// A sequence of two items, each converted at its index; the first error wins.
    open spec fn conversion_error(value: Value, path: Seq<SegmentView>) -> Option<ErrorView> {
        match tuple_shape_error(value, path, 2) {
            Some(e) => Some(e),
            None => or_else(item_error::<A>(value, path, 0), item_error::<B>(value, path, 1)),
        }
    }

    open spec fn converts_to(value: Value, out: Self) -> bool {
        &&& value is Sequence
        &&& value->Sequence_0@.len() == 2
        &&& A::converts_to(value->Sequence_0@[0], out.0)
        &&& B::converts_to(value->Sequence_0@[1], out.1)
    }

    fn from_value(value: &Value, path: &mut PathStack) -> (r: Result<Self, ConfigError>) {
        let items = tuple_items(value, path, 2)?;
        let a = element::<A>(items, 0, path)?;
        let b = element::<B>(items, 1, path)?;
        Ok((a, b))
    }
}

impl<A: FromValue, B: FromValue, C: FromValue> FromValue for (A, B, C) {
    /// It states its conversion when its parts do.
    open spec fn obeys_conversion_spec() -> bool {
        A::obeys_conversion_spec() && B::obeys_conversion_spec() && C::obeys_conversion_spec()
    }

    /// A sequence of three items, each converted at its index; the first error wins.
    open spec fn conversion_error(value: Value, path: Seq<SegmentView>) -> Option<ErrorView> {
        match tuple_shape_error(value, path, 3) {
            Some(e) => Some(e),
            None => or_else(
                item_error::<A>(value, path, 0),
                or_else(item_error::<B>(value, path, 1), item_error::<C>(value, path, 2)),
            ),
        }
    }

    open spec fn converts_to(value: Value, out: Self) -> bool {
        &&& value is Sequence
        &&& value->Sequence_0@.len() == 3
        &&& A::converts_to(value->Sequence_0@[0], out.0)
        &&& B::converts_to(value->Sequence_0@[1], out.1)
        &&& C::converts_to(value->Sequence_0@[2], out.2)
    }

    fn from_value(value: &Value, path: &mut PathStack) -> (r: Result<Self, ConfigError>) {
        let items = tuple_items(value, path, 3)?;
        let a = element::<A>(items, 0, path)?;
        let b = element::<B>(items, 1, path)?;
        let c = element::<C>(items, 2, path)?;
        Ok((a, b, c))
    }
}

impl<A: FromValue, B: FromValue, C: FromValue, D: FromValue> FromValue for (A, B, C, D) {
    /// It states its conversion when its parts do.
    open spec fn obeys_conversion_spec() -> bool {
        A::obeys_conversion_spec() && B::obeys_conversion_spec() && C::obeys_conversion_spec()
            && D::obeys_conversion_spec()
    }

    /// A sequence of four items, each converted at its index; the first error wins.
    open spec fn conversion_error(value: Value, path: Seq<SegmentView>) -> Option<ErrorView> {
        match tuple_shape_error(value, path, 4) {
            Some(e) => Some(e),
            None => or_else(
                item_error::<A>(value, path, 0),
                or_else(
                    item_error::<B>(value, path, 1),
                    or_else(item_error::<C>(value, path, 2), item_error::<D>(value, path, 3)),
                ),
            ),
        }
    }

    open spec fn converts_to(value: Value, out: Self) -> bool {
        &&& value is Sequence
        &&& value->Sequence_0@.len() == 4
        &&& A::converts_to(value->Sequence_0@[0], out.0)
        &&& B::converts_to(value->Sequence_0@[1], out.1)
        &&& C::converts_to(value->Sequence_0@[2], out.2)
        &&& D::converts_to(value->Sequence_0@[3], out.3)
    }

    fn from_value(value: &Value, path: &mut PathStack) -> (r: Result<Self, ConfigError>) {
        let items = tuple_items(value, path, 4)?;
        let a = element::<A>(items, 0, path)?;
        let b = element::<B>(items, 1, path)?;
        let c = element::<C>(items, 2, path)?;
        let d = element::<D>(items, 3, path)?;
        Ok((a, b, c, d))
    }
}

impl<T: FromValue> FromValue for Rc<T> {
    /// It states its conversion when its parts do.
    open spec fn obeys_conversion_spec() -> bool {
        T::obeys_conversion_spec()
    }

    open spec fn conversion_error(value: Value, path: Seq<SegmentView>) -> Option<ErrorView> {
        T::conversion_error(value, path)
    }

    open spec fn converts_to(value: Value, out: Self) -> bool {
        T::converts_to(value, *out)
    }

    fn from_value(value: &Value, path: &mut PathStack) -> (r: Result<Self, ConfigError>) {
        match T::from_value(value, path) {
            Ok(x) => Ok(Rc::new(x)),
            Err(e) => Err(e),
        }
    }
}

impl<T: FromValue> FromValue for Arc<T> {
    /// It states its conversion when its parts do.
    open spec fn obeys_conversion_spec() -> bool {
        T::obeys_conversion_spec()
    }

    open spec fn conversion_error(value: Value, path: Seq<SegmentView>) -> Option<ErrorView> {
        T::conversion_error(value, path)
    }

    open spec fn converts_to(value: Value, out: Self) -> bool {
        T::converts_to(value, *out)
    }

    fn from_value(value: &Value, path: &mut PathStack) -> (r: Result<Self, ConfigError>) {
        match T::from_value(value, path) {
            Ok(x) => Ok(Arc::new(x)),
            Err(e) => Err(e),
        }
    }
}

/// The items of `v`, in order, as a deque.
fn into_deque<T>(v: Vec<T>) -> (d: VecDeque<T>)
    ensures
        d@ == v@,
{
    let ghost all = v@;
    let mut rest = v;
    let mut d: VecDeque<T> = VecDeque::new();
    while rest.len() > 0
        invariant
            d@ + rest@ == all,
        decreases rest@.len(),
    {
        let ghost before = rest@;
        let x = rest.remove(0);
        d.push_back(x);
        assert(d@ + rest@ =~= all) by {
            assert(before =~= seq![x] + rest@);
        }
    }
    assert(d@ =~= all);
    d
}

impl<T: FromValue> FromValue for VecDeque<T> {
    /// It states its conversion when its parts do.
    open spec fn obeys_conversion_spec() -> bool {
        T::obeys_conversion_spec()
    }

    /// As `Vec<T>`: a sequence whose items all convert; the first failing item's error.
    open spec fn conversion_error(value: Value, path: Seq<SegmentView>) -> Option<ErrorView> {
        <Vec<T> as FromValue>::conversion_error(value, path)
    }

    open spec fn converts_to(value: Value, out: Self) -> bool {
        match value {
            Value::Sequence(items) => out@.len() == items@.len()
                && forall|i: int| 0 <= i < items@.len() ==> T::converts_to(#[trigger] items@[i], out@[i]),
            _ => false,
        }
    }

    fn from_value(value: &Value, path: &mut PathStack) -> (r: Result<Self, ConfigError>) {
        let v = <Vec<T> as FromValue>::from_value(value, path)?;
        Ok(into_deque(v))
    }
}

impl<T: FromValue + Hash + Eq> FromValue for HashSet<T> {
    /// It states its conversion when its parts do.
    open spec fn obeys_conversion_spec() -> bool {
        T::obeys_conversion_spec()
    }

    /// As `Vec<T>`: a sequence whose items all convert; the first failing item's error.
    open spec fn conversion_error(value: Value, path: Seq<SegmentView>) -> Option<ErrorView> {
        <Vec<T> as FromValue>::conversion_error(value, path)
    }

    /// The set of the items' conversions, where `T`'s `Hash` and `Eq` agree with equality (the
    /// condition under which a set's contents can be spoken of at all).
    open spec fn converts_to(value: Value, out: Self) -> bool {
        match value {
            Value::Sequence(items) => exists|outs: Seq<T>|
                #[trigger] converts_items::<T>(items@, outs)
                    && (obeys_key_model::<T>() ==> out@ == outs.to_set()),
            _ => false,
        }
    }

    fn from_value(value: &Value, path: &mut PathStack) -> (r: Result<Self, ConfigError>) {
        broadcast use vstd::std_specs::hash::group_hash_axioms;
        let v = <Vec<T> as FromValue>::from_value(value, path)?;
        let ghost all = v@;
        let mut rest = v;
        let mut set: HashSet<T> = HashSet::new();
        assert(all.take(0).to_set() =~= Set::<T>::empty());
        while rest.len() > 0
            invariant
                rest@.len() <= all.len(),
                rest@ == all.subrange(all.len() - rest@.len(), all.len() as int),
                obeys_key_model::<T>() ==> set@ == all.take(all.len() - rest@.len()).to_set(),
            decreases rest@.len(),
        {
            let ghost k = all.len() - rest@.len();
            let x = rest.remove(0);
            proof {
                assert(all[k] == x);
                assert(all.take(k + 1) =~= all.take(k).push(x));
                assert(all.take(k).push(x).to_set() =~= all.take(k).to_set().insert(x)) by {
                    broadcast use vstd::seq_lib::group_seq_properties;
                }
            }
            set.insert(x);
            assert(rest@ =~= all.subrange(all.len() - rest@.len(), all.len() as int));
        }
        proof {
            assert(all.take(all.len() as int) =~= all);
            if T::obeys_conversion_spec() {
                assert(converts_items::<T>(value->Sequence_0@, all));
            }
        }
        Ok(set)
    }
}

impl<T: FromValue> FromValue for BTreeMap<String, T> {
    /// It states its conversion when its parts do.
    open spec fn obeys_conversion_spec() -> bool {
        T::obeys_conversion_spec()
    }

    /// As `HashMap<String, T>`: a table whose values all convert; the first failing entry's
    /// error, at its key.
    open spec fn conversion_error(value: Value, path: Seq<SegmentView>) -> Option<ErrorView> {
        <HashMap<String, T> as FromValue>::conversion_error(value, path)
    }

    /// The entries' values converted as `T`, under their keys.
    open spec fn converts_to(value: Value, out: Self) -> bool {
        converts_to_text_map::<T>(value, text_keyed(out@))
    }

    fn from_value(value: &Value, path: &mut PathStack) -> (r: Result<Self, ConfigError>) {
        let table = match value {
            Value::Table(t) => t,
            _ => return Err(ConfigError::type_mismatch(path, "table", value)),
        };
        let v = convert_entries::<T>(table, path)?;
        let ghost all = v@;
        let ghost keys = all.map_values(|p: (String, T)| p.0);
        let ghost outs = all.map_values(|p: (String, T)| p.1);
        proof {
            lemma_split_entries::<T>(table_entries(*table), all);
            lemma_text_keyed_empty::<T>();
        }
        let mut out: BTreeMap<String, T> = BTreeMap::new();
        let mut rest = v;
        while rest.len() > 0
            invariant
                rest@.len() <= all.len(),
                rest@ == all.subrange(all.len() - rest@.len(), all.len() as int),
                keys == all.map_values(|p: (String, T)| p.0),
                outs == all.map_values(|p: (String, T)| p.1),
                text_keyed(out@) == inserted_texts(keys.take(all.len() - rest@.len()), outs.take(all.len() - rest@.len())),
            decreases rest@.len(),
        {
            let ghost k = all.len() - rest@.len();
            let (key, x) = rest.remove(0);
            proof {
                assert(keys.take(k + 1).drop_last() =~= keys.take(k));
                assert(outs.take(k + 1).drop_last() =~= outs.take(k));
                assert(all[k] == (key, x));
            }
            btree_map_insert(&mut out, key, x);
            assert(rest@ =~= all.subrange(all.len() - rest@.len(), all.len() as int));
        }
        proof {
            assert(keys.take(all.len() as int) =~= keys);
            assert(outs.take(all.len() as int) =~= outs);
            assert(T::obeys_conversion_spec() ==> converts_entries::<T>(table_entries(*table), outs));
        }
        Ok(out)
    }
}

/// `indexmap::IndexMap`, carried through as it is.
#[verifier::external_type_specification]
#[verifier::external_body]
#[verifier::reject_recursive_types(K)]
#[verifier::reject_recursive_types(V)]
#[verifier::reject_recursive_types(S)]
pub struct ExIndexMap<K, V, S>(IndexMap<K, V, S>);

/// `IndexMap::new`. What the map holds is not stated: a generic collection of an outside crate
/// can be given no name for its contents here.
#[verifier::external_body]
fn index_map_new<T>() -> (m: IndexMap<String, T>) {
    IndexMap::new()
}

/// `IndexMap::insert` with a `String` key. What the map holds afterwards is not stated, for the
/// same reason.
#[verifier::external_body]
fn index_map_insert<T>(m: &mut IndexMap<String, T>, key: String, value: T) {
    m.insert(key, value);
}

impl<T: FromValue> FromValue for IndexMap<String, T> {
    /// It states its conversion when its parts do.
    open spec fn obeys_conversion_spec() -> bool {
        T::obeys_conversion_spec()
    }

    /// As `HashMap<String, T>`: a table whose values all convert; the first failing entry's
    /// error, at its key.
    open spec fn conversion_error(value: Value, path: Seq<SegmentView>) -> Option<ErrorView> {
        <HashMap<String, T> as FromValue>::conversion_error(value, path)
    }

    /// Every entry's value converts as `T`. Which entries the map then holds is not stated
    /// (see `index_map_insert`).
    open spec fn converts_to(value: Value, out: Self) -> bool {
        match value {
            Value::Table(t) => exists|outs: Seq<T>| #[trigger] converts_entries::<T>(table_entries(t), outs),
            _ => false,
        }
    }

    fn from_value(value: &Value, path: &mut PathStack) -> (r: Result<Self, ConfigError>) {
        let table = match value {
            Value::Table(t) => t,
            _ => return Err(ConfigError::type_mismatch(path, "table", value)),
        };
        let v = convert_entries::<T>(table, path)?;
        let ghost all = v@;
        proof {
            lemma_split_entries::<T>(table_entries(*table), all);
        }
        let mut out: IndexMap<String, T> = index_map_new();
        let ghost mut inserted: Seq<(String, T)> = Seq::empty();
        let mut rest = v;
        proof {
            assert(all.take(0) =~= inserted);
            assert(rest@ =~= all.subrange(0, all.len() as int));
        }
        // The entries go in in the table's order, one after the other: `inserted` is the order
        // of the calls so far.
        while rest.len() > 0
            invariant
                rest@.len() <= all.len(),
                rest@ == all.subrange(all.len() - rest@.len(), all.len() as int),
                inserted == all.take(all.len() - rest@.len()),
            decreases rest@.len(),
        {
            let ghost k = all.len() - rest@.len();
            let (key, x) = rest.remove(0);
            proof {
                assert(all[k] == (key, x));
                assert(all.take(k + 1) =~= all.take(k).push((key, x)));
                inserted = inserted.push((key, x));
            }
            index_map_insert(&mut out, key, x);
            assert(rest@ =~= all.subrange(all.len() - rest@.len(), all.len() as int));
        }
        proof {
            assert(inserted =~= all);
        }
        Ok(out)
    }
}

} // verus!
