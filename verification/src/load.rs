//! What a derived `FromValue` impl and the loading methods do: field lookup with the
//! absent / null / default / required rules, and parsing text into a typed struct.
use vstd::prelude::*;
use crate::error::{missing_view, type_view, ConfigError, ErrorView};
use crate::format::{line_col_of, Format, ParseError};
use crate::formats::{choose_feature, opt_view, parses_as, path_extension, select};
use crate::from_value::FromValue;
use crate::path::{render_path, PathStack, Segment, SegmentView};
use crate::text::owned;
use crate::value::{lookup, table_entries, Value, Table};

verus! {

/// The table a struct is read from: `value` itself when it is a table, else a type error.
pub fn table_of<'a>(value: &'a Value, path: &PathStack) -> (r: Result<&'a Table, ConfigError>)
    ensures
        match r {
            Ok(t) => *value == Value::Table(*t),
            Err(e) => !(value is Table) && e@ == type_view(render_path(path@), "table"@, *value),
        },
{
    match value {
        Value::Table(t) => Ok(t),
        _ => Err(ConfigError::type_mismatch(path, "table", value)),
    }
}

/// The error for the required key `key` that is absent from the table at `path`: it names the
/// key's full path.
pub fn missing_field(key: &str, path: &mut PathStack) -> (e: ConfigError)
    ensures
        final(path)@ == old(path)@,
        e@ == missing_view(render_path(old(path)@.push(SegmentView::Key(key@)))),
{
    path.push(Segment::Key(owned(key)));
    let e = ConfigError::missing(path);
    path.pop();
    proof { assert(old(path)@.push(SegmentView::Key(key@)).drop_last() =~= old(path)@); }
    e
}

/// What reading the field `key` of a table gives: `None` when the key is absent, else the
/// conversion of its value at the key's path (stated when `T` states its conversion).
pub open spec fn field_outcome<T: FromValue>(
    entries: Seq<(String, Value)>,
    key: Seq<char>,
    path: Seq<SegmentView>,
    r: Result<Option<T>, ConfigError>,
) -> bool {
    match lookup(entries, key) {
        None => r matches Ok(None),
        Some(v) => T::obeys_conversion_spec() ==> match T::conversion_error(v, path.push(SegmentView::Key(key))) {
            Some(err) => r matches Err(e) && e@ == err,
            None => r matches Ok(Some(x)) && T::converts_to(v, x),
        },
    }
}

/// Reads the field `key` of `map`: `None` when the key is absent, else its value converted as
/// `T` with the key pushed onto `path`.
pub fn lookup_field<T: FromValue>(map: &Table, key: &str, path: &mut PathStack) -> (r: Result<Option<T>, ConfigError>)
    ensures
        final(path)@ == old(path)@,
        field_outcome::<T>(table_entries(*map), key@, old(path)@, r),
{
    match map.get(key) {
        None => Ok(None),
        Some(v) => {
            path.push(Segment::Key(owned(key)));
            let r = T::from_value(v, path);
            path.pop();
            proof { assert(old(path)@.push(SegmentView::Key(key@)).drop_last() =~= old(path)@); }
            match r {
                Ok(x) => Ok(Some(x)),
                Err(e) => Err(e),
            }
        },
    }
}

/// What reading the optional field `key` of a table gives: `None` when the key is absent,
/// `Some(None)` when it holds `null`, else the conversion of its value at the key's path (stated
/// when `T` states its conversion).
pub open spec fn optional_field_outcome<T: FromValue>(
    entries: Seq<(String, Value)>,
    key: Seq<char>,
    path: Seq<SegmentView>,
    r: Result<Option<Option<T>>, ConfigError>,
) -> bool {
    match lookup(entries, key) {
        None => r matches Ok(None),
        Some(Value::Null) => r matches Ok(Some(None)),
        Some(v) => T::obeys_conversion_spec() ==> match T::conversion_error(v, path.push(SegmentView::Key(key))) {
            Some(err) => r matches Err(e) && e@ == err,
            None => r matches Ok(Some(Some(x))) && T::converts_to(v, x),
        },
    }
}

/// Reads the field `key` of `map` for an `Option` field: `None` when the key is absent,
/// `Some(None)` when it is `null`, else `Some(Some(..))` of its value converted as `T`.
pub fn lookup_optional_field<T: FromValue>(map: &Table, key: &str, path: &mut PathStack) -> (r: Result<Option<Option<T>>, ConfigError>)
    ensures
        final(path)@ == old(path)@,
        optional_field_outcome::<T>(table_entries(*map), key@, old(path)@, r),
{
    match map.get(key) {
        None => Ok(None),
        Some(Value::Null) => Ok(Some(None)),
        Some(v) => {
            path.push(Segment::Key(owned(key)));
            let r = T::from_value(v, path);
            path.pop();
            proof { assert(old(path)@.push(SegmentView::Key(key@)).drop_last() =~= old(path)@); }
            match r {
                Ok(x) => Ok(Some(Some(x))),
                Err(e) => Err(e),
            }
        },
    }
}

/// Reads the required field `key` of `map`: its value converted as `T`, or a missing-key error
/// that names the key's full path.
pub fn required_field<T: FromValue>(map: &Table, key: &str, path: &mut PathStack) -> (r: Result<T, ConfigError>)
    ensures
        final(path)@ == old(path)@,
        match lookup(table_entries(*map), key@) {
            None => r matches Err(e) && e@ == missing_view(render_path(old(path)@.push(SegmentView::Key(key@)))),
            Some(v) => T::obeys_conversion_spec() ==> match T::conversion_error(v, old(path)@.push(SegmentView::Key(key@))) {
                Some(err) => r matches Err(e) && e@ == err,
                None => r matches Ok(x) && T::converts_to(v, x),
            },
        },
{
    match lookup_field::<T>(map, key, path) {
        Ok(Some(x)) => Ok(x),
        Ok(None) => Err(missing_field(key, path)),
        Err(e) => Err(e),
    }
}

/// What loading `source` with a format gives, once the format has parsed it into `parsed`: a
/// parse error carries the format's name and the error's line and column in `source`; a value
/// is converted as `T` from the root (stated when `T` states its conversion).
pub open spec fn load_outcome<T: FromValue>(
    format_name: Seq<char>,
    source: Seq<char>,
    parsed: Result<Value, ParseError>,
    r: Result<T, ConfigError>,
) -> bool {
    match parsed {
        Err(pe) => r matches Err(e) && e@ == (ErrorView::Parse {
            format: format_name,
            message: pe.message@,
            line_col: line_col_of(source, pe.offset),
        }),
        Ok(v) => T::obeys_conversion_spec() ==> match T::conversion_error(v, Seq::empty()) {
            Some(err) => r matches Err(e) && e@ == err,
            None => r matches Ok(x) && T::converts_to(v, x),
        },
    }
}

/// Parses `source` with `format` and converts the result into `T`.
pub fn load_str<T: FromValue, F: Format + ?Sized>(source: &str, format: &F) -> (r: Result<T, ConfigError>)
    ensures
        exists|parsed: Result<Value, ParseError>|
            format.parses_to(source@, parsed) && load_outcome::<T>(format.spec_name(), source@, parsed, r),
{
    let parsed = format.parse(source);
    match parsed {
        Err(e) => {
            let line_col = e.line_col(source);
            Err(ConfigError::Parse { format: format.name(), message: e.message, line_col })
        },
        Ok(v) => {
            let mut path = PathStack::new();
            T::from_value(&v, &mut path)
        },
    }
}

/// What loading a file's text gives once its format has been chosen as `chosen`: an unknown
/// format names the file, a known one parses the text and converts the result into `T`.
pub open spec fn load_text_outcome<T: FromValue>(
    path: Seq<char>,
    chosen: Result<Seq<char>, Seq<char>>,
    text: Seq<char>,
    r: Result<T, ConfigError>,
) -> bool {
    match chosen {
        Err(m) => r matches Err(e) && e@ == (ErrorView::UnknownFormat { path, message: m }),
        Ok(name) => exists|parsed: Result<Value, ParseError>|
            #![trigger load_outcome::<T>(name, text, parsed, r)]
            parses_as(name, text, parsed) && load_outcome::<T>(name, text, parsed, r),
    }
}

/// Loads the text of the file at `path`: picks its format (the `explicit` name, else the
/// extension, else a sniff of the text), parses, and converts into `T`.
pub fn load_text<T: FromValue>(path: &str, explicit: Option<&str>, text: &str) -> (r: Result<T, ConfigError>)
    ensures
        load_text_outcome::<T>(
            path@,
            choose_feature(opt_view(explicit), if explicit is Some { None } else { path_extension(path@) }, text@),
            text@,
            r,
        ),
{
    let ghost ext = if explicit is Some { None } else { path_extension(path@) };
    let ghost chosen = choose_feature(opt_view(explicit), ext, text@);
    match select(explicit, path, text) {
        Err(e) => {
            Err(ConfigError::UnknownFormat { path: owned(path), message: e.message })
        },
        Ok(format) => {
            let r = load_str::<T, _>(text, format);
            proof {
                let name = format.spec_name();
                assert(chosen->Ok_0 == name);
                let parsed = choose|parsed: Result<Value, ParseError>|
                    format.parses_to(text@, parsed) && load_outcome::<T>(name, text@, parsed, r);
            }
            r
        },
    }
}

/// Loads a config file at `path` given the outcome of reading it: a failed read is an I/O error
/// naming the file, else the text is loaded as `load_text` does.
pub fn load_read<T: FromValue>(path: &str, explicit: Option<&str>, read: Result<String, String>) -> (r: Result<T, ConfigError>)
    ensures
        match read {
            Err(m) => r matches Err(e) && e@ == (ErrorView::Io { path: path@, message: m@ }),
            Ok(text) => load_text_outcome::<T>(
                path@,
                choose_feature(opt_view(explicit), if explicit is Some { None } else { path_extension(path@) }, text@),
                text@,
                r,
            ),
        },
{
    match read {
        Err(message) => Err(ConfigError::Io { path: owned(path), message }),
        Ok(text) => load_text::<T>(path, explicit, text.as_str()),
    }
}

} // verus!
