//! The compile-time check: a parsed config file is type-checked against a struct's field plan,
//! and every mismatch is reported, not just the first.
use vstd::prelude::*;
use std::path::PathBuf;

use crate::derive::plan::{checked_type_spec, is_required, FieldPlan};
use crate::derive::syntax::{
    element_type, last_segment, lemma_element_type_smaller, option_inner, type_arg, TypeShape, TypedArg,
};
use crate::error::{message, missing_view, type_view, ConfigError, ErrorView};
use crate::from_value::{entries_error, item_error, items_error, or_else, FromValue};
use std::collections::{BTreeMap, HashMap, HashSet, VecDeque};
use std::hash::Hash;
use indexmap::IndexMap;
use std::rc::Rc;
use std::sync::Arc;
use crate::path::{render_path, PathStack, Segment, SegmentView};
use crate::format::{line_col_of, Format, ParseError};
use crate::formats::{choose_feature, opt_view, parses_as, path_extension, select};
use crate::text::{concat, decimal, push_decimal, str_eq};
use vstd::string::StringExecFns;
use crate::value::{inserted, law_lookup_ignores_other_keys, lookup, table_entries, Value, Datetime, Table};

verus! {

/// The views of a list of errors.
pub open spec fn error_views(errors: Seq<ConfigError>) -> Seq<ErrorView> {
    errors.map_values(|e: ConfigError| e@)
}

/// The error converting `v` at `path` into a float type named `name`: a float is taken as it
/// is, an integer only within `-bound - 1..=bound` (where it converts exactly), anything else
/// is a type error.
pub open spec fn float_error(v: Value, path: Seq<SegmentView>, bound: int, name: Seq<char>) -> Option<ErrorView> {
    match v {
        Value::Float(_) => None,
        Value::Int(i) => if -bound - 1 <= i <= bound {
            None
        } else {
            Some(ErrorView::OutOfRange { path: render_path(path), value: i, target: name })
        },
        _ => Some(type_view(render_path(path), name, v)),
    }
}

/// Whether `name` is a scalar type the check converts itself.
pub open spec fn is_scalar(name: Seq<char>) -> bool {
    name == "i8"@ || name == "i16"@ || name == "i32"@ || name == "i64"@ || name == "i128"@ || name == "isize"@
        || name == "u8"@ || name == "u16"@ || name == "u32"@ || name == "u64"@ || name == "u128"@ || name == "usize"@
        || name == "f32"@ || name == "f64"@ || name == "bool"@ || name == "String"@ || name == "PathBuf"@
        || name == "char"@ || name == "Datetime"@
}

/// The error converting `v` at `path` into the scalar named `name`: the runtime conversion's
/// error for every scalar that has one, the float rule for `f32` and `f64`.
pub open spec fn scalar_error(name: Seq<char>, v: Value, path: Seq<SegmentView>) -> Option<ErrorView> {
    if name == "i8"@ { <i8 as FromValue>::conversion_error(v, path) }
    else if name == "i16"@ { <i16 as FromValue>::conversion_error(v, path) }
    else if name == "i32"@ { <i32 as FromValue>::conversion_error(v, path) }
    else if name == "i64"@ { <i64 as FromValue>::conversion_error(v, path) }
    else if name == "i128"@ { <i128 as FromValue>::conversion_error(v, path) }
    else if name == "isize"@ { <isize as FromValue>::conversion_error(v, path) }
    else if name == "u8"@ { <u8 as FromValue>::conversion_error(v, path) }
    else if name == "u16"@ { <u16 as FromValue>::conversion_error(v, path) }
    else if name == "u32"@ { <u32 as FromValue>::conversion_error(v, path) }
    else if name == "u64"@ { <u64 as FromValue>::conversion_error(v, path) }
    else if name == "u128"@ { <u128 as FromValue>::conversion_error(v, path) }
    else if name == "usize"@ { <usize as FromValue>::conversion_error(v, path) }
    else if name == "f32"@ { float_error(v, path, i16::MAX as int, "f32"@) }
    else if name == "f64"@ { float_error(v, path, i32::MAX as int, "f64"@) }
    else if name == "bool"@ { <bool as FromValue>::conversion_error(v, path) }
    else if name == "String"@ { <String as FromValue>::conversion_error(v, path) }
    else if name == "PathBuf"@ { <PathBuf as FromValue>::conversion_error(v, path) }
    else if name == "char"@ { <char as FromValue>::conversion_error(v, path) }
    else { <Datetime as FromValue>::conversion_error(v, path) }
}

/// A list holding the error, if any.
pub open spec fn opt_errors(e: Option<ErrorView>) -> Seq<ErrorView> {
    match e {
        Some(x) => seq![x],
        None => Seq::empty(),
    }
}

/// Every error checking `value` against `ty` at `path`, in document order.
///
/// Scalars are converted by the runtime rules; `Box`, `Rc` and `Arc` are checked as what they
/// hold; `Option` accepts `null`; `Vec`, `VecDeque` and `HashSet` need a sequence, the maps a
/// table, tuples a sequence of their length; any other path type (a nested struct) needs a
/// table and nothing more. Types with no runtime counterpart (references, arrays, qualified
/// paths) are not checked.
pub open spec fn type_errors(ty: TypeShape, value: Value, path: Seq<SegmentView>) -> Seq<ErrorView>
    decreases ty, 1nat, 0nat,
{
    match ty {
        TypeShape::Paren(inner) => type_errors(*inner, value, path),
        TypeShape::Tuple(elems) => match value {
            Value::Sequence(items) => if items@.len() != elems@.len() {
                seq![ErrorView::Length { path: render_path(path), expected: elems@.len() as usize, found: items@.len() as usize }]
            } else {
                tuple_errors(ty, items@, path, items@.len())
            },
            _ => seq![type_view(render_path(path), "sequence"@, value)],
        },
        TypeShape::Path { .. } => match last_segment(ty) {
            None => Seq::empty(),
            Some(segment) => {
                let name = segment.ident@;
                if is_scalar(name) {
                    opt_errors(scalar_error(name, value, path))
                } else if name == "Box"@ || name == "Rc"@ || name == "Arc"@ {
                    match element_type(ty, 0) {
                        Some(inner) => {
                            proof { lemma_element_type_smaller(ty, 0); }
                            type_errors(inner.ty, value, path)
                        },
                        None => Seq::empty(),
                    }
                } else if name == "Option"@ {
                    match element_type(ty, 0) {
                        Some(inner) => if value is Null {
                            Seq::empty()
                        } else {
                            proof { lemma_element_type_smaller(ty, 0); }
                            type_errors(inner.ty, value, path)
                        },
                        None => Seq::empty(),
                    }
                } else if name == "Vec"@ || name == "VecDeque"@ || name == "HashSet"@ {
                    match value {
                        Value::Sequence(items) => items_errors(ty, items@, path, items@.len()),
                        _ => seq![type_view(render_path(path), "sequence"@, value)],
                    }
                } else if name == "HashMap"@ || name == "BTreeMap"@ || name == "IndexMap"@ {
                    match value {
                        Value::Table(t) => entries_errors(ty, table_entries(t), path, table_entries(t).len()),
                        _ => seq![type_view(render_path(path), "table"@, value)],
                    }
                } else if value is Table {
                    Seq::empty()
                } else {
                    seq![type_view(render_path(path), "table"@, value)]
                }
            },
        },
        TypeShape::Other => Seq::empty(),
    }
}

/// The errors of the first `n` items of a tuple of type `ty`, each at its index.
pub open spec fn tuple_errors(ty: TypeShape, items: Seq<Value>, path: Seq<SegmentView>, n: nat) -> Seq<ErrorView>
    decreases ty, 0nat, n,
{
    match ty {
        TypeShape::Tuple(elems) => if n == 0 || n > elems@.len() || n > items.len() {
            Seq::empty()
        } else {
            let k = n - 1;
            tuple_errors(ty, items, path, k as nat) + type_errors(elems@[k], items[k], path.push(SegmentView::Index(k as usize)))
        },
        _ => Seq::empty(),
    }
}

/// The errors of the first `n` items of a sequence, each checked against the element type of
/// `ty` at its index.
pub open spec fn items_errors(ty: TypeShape, items: Seq<Value>, path: Seq<SegmentView>, n: nat) -> Seq<ErrorView>
    decreases ty, 0nat, n,
{
    match element_type(ty, 0) {
        Some(inner) => if n == 0 || n > items.len() {
            Seq::empty()
        } else {
            let k = n - 1;
            proof { lemma_element_type_smaller(ty, 0); }
            items_errors(ty, items, path, k as nat) + type_errors(inner.ty, items[k], path.push(SegmentView::Index(k as usize)))
        },
        None => Seq::empty(),
    }
}

/// The errors of the values of the first `n` entries of a table, each checked against the value
/// type of `ty` at its key.
pub open spec fn entries_errors(ty: TypeShape, entries: Seq<(String, Value)>, path: Seq<SegmentView>, n: nat) -> Seq<ErrorView>
    decreases ty, 0nat, n,
{
    match element_type(ty, 1) {
        Some(inner) => if n == 0 || n > entries.len() {
            Seq::empty()
        } else {
            let k = n - 1;
            proof { lemma_element_type_smaller(ty, 1); }
            entries_errors(ty, entries, path, k as nat)
                + type_errors(inner.ty, entries[k].1, path.push(SegmentView::Key(entries[k].0@)))
        },
        None => Seq::empty(),
    }
}

/// Pushes the error of `r`, if any.
fn push_error(errors: &mut Vec<ConfigError>, r: Result<(), ConfigError>)
    ensures
        error_views(final(errors)@) == error_views(old(errors)@) + opt_errors(match r {
            Ok(_) => None,
            Err(e) => Some(e@),
        }),
{
    match r {
        Ok(()) => {
            assert(error_views(errors@) =~= error_views(errors@) + Seq::<ErrorView>::empty());
        },
        Err(e) => {
            let ghost before = errors@;
            errors.push(e);
            assert(error_views(errors@) =~= error_views(before) + seq![e@]);
        },
    }
}

/// Converts `value` by the runtime rules of `T`, keeping only the error.
fn leaf<T: FromValue>(value: &Value, path: &mut PathStack) -> (r: Result<(), ConfigError>)
    requires
        T::obeys_conversion_spec(),
    ensures
        final(path)@ == old(path)@,
        match r {
            Ok(_) => T::conversion_error(*value, old(path)@) is None,
            Err(e) => T::conversion_error(*value, old(path)@) == Some(e@),
        },
{
    match T::from_value(value, path) {
        Ok(_) => Ok(()),
        Err(e) => Err(e),
    }
}

/// The float rule: a float, or an integer within `-bound - 1..=bound`.
fn float_leaf(value: &Value, path: &PathStack, bound: i64, name: &'static str) -> (r: Result<(), ConfigError>)
    requires
        0 <= bound < i64::MAX,
    ensures
        match r {
            Ok(_) => float_error(*value, path@, bound as int, name@) is None,
            Err(e) => float_error(*value, path@, bound as int, name@) == Some(e@),
        },
{
    match value {
        Value::Float(_) => Ok(()),
        Value::Int(i) => if -bound - 1 <= *i && *i <= bound {
            Ok(())
        } else {
            Err(ConfigError::out_of_range(path, *i, name))
        },
        _ => Err(ConfigError::type_mismatch(path, name, value)),
    }
}

/// Checks `value` against the scalar named `name`.
fn check_scalar(name: &str, value: &Value, path: &mut PathStack) -> (r: Result<(), ConfigError>)
    ensures
        final(path)@ == old(path)@,
        match r {
            Ok(_) => scalar_error(name@, *value, old(path)@) is None,
            Err(e) => scalar_error(name@, *value, old(path)@) == Some(e@),
        },
{
    if str_eq(name, "i8") { leaf::<i8>(value, path) }
    else if str_eq(name, "i16") { leaf::<i16>(value, path) }
    else if str_eq(name, "i32") { leaf::<i32>(value, path) }
    else if str_eq(name, "i64") { leaf::<i64>(value, path) }
    else if str_eq(name, "i128") { leaf::<i128>(value, path) }
    else if str_eq(name, "isize") { leaf::<isize>(value, path) }
    else if str_eq(name, "u8") { leaf::<u8>(value, path) }
    else if str_eq(name, "u16") { leaf::<u16>(value, path) }
    else if str_eq(name, "u32") { leaf::<u32>(value, path) }
    else if str_eq(name, "u64") { leaf::<u64>(value, path) }
    else if str_eq(name, "u128") { leaf::<u128>(value, path) }
    else if str_eq(name, "usize") { leaf::<usize>(value, path) }
    else if str_eq(name, "f32") { float_leaf(value, path, 0x7fff, "f32") }
    else if str_eq(name, "f64") { float_leaf(value, path, 0x7fff_ffff, "f64") }
    else if str_eq(name, "bool") { leaf::<bool>(value, path) }
    else if str_eq(name, "String") { leaf::<String>(value, path) }
    else if str_eq(name, "PathBuf") { leaf::<PathBuf>(value, path) }
    else if str_eq(name, "char") { leaf::<char>(value, path) }
    else { leaf::<Datetime>(value, path) }
}

/// Whether `name` is a scalar type the check converts itself.
fn scalar_name(name: &str) -> (r: bool)
    ensures
        r == is_scalar(name@),
{
    str_eq(name, "i8") || str_eq(name, "i16") || str_eq(name, "i32") || str_eq(name, "i64")
        || str_eq(name, "i128") || str_eq(name, "isize") || str_eq(name, "u8") || str_eq(name, "u16")
        || str_eq(name, "u32") || str_eq(name, "u64") || str_eq(name, "u128") || str_eq(name, "usize")
        || str_eq(name, "f32") || str_eq(name, "f64") || str_eq(name, "bool") || str_eq(name, "String")
        || str_eq(name, "PathBuf") || str_eq(name, "char") || str_eq(name, "Datetime")
}

/// Checks `value` against `ty` by the type's syntax, pushing an error per mismatch onto `errors`.
pub fn check_type(ty: &TypeShape, value: &Value, path: &mut PathStack, errors: &mut Vec<ConfigError>)
    ensures
        final(path)@ == old(path)@,
        error_views(final(errors)@) == error_views(old(errors)@) + type_errors(*ty, *value, old(path)@),
    decreases *ty,
{
    let ghost before = errors@;
    match ty {
        TypeShape::Paren(inner) => {
            check_type(inner, value, path, errors);
        },
        TypeShape::Tuple(elems) => {
            let items = match value {
                Value::Sequence(items) => items,
                _ => {
                    push_error(errors, Err(ConfigError::type_mismatch(path, "sequence", value)));
                    return;
                },
            };
            if items.len() != elems.len() {
                push_error(errors, Err(ConfigError::length(path, elems.len(), items.len())));
                return;
            }
            let ghost start = path@;
            let mut i: usize = 0;
            while i < items.len()
                invariant
                    *ty == TypeShape::Tuple(*elems),
                    *value == Value::Sequence(*items),
                    items@.len() == elems@.len(),
                    path@ == start,
                    i <= items@.len(),
                    error_views(errors@) == error_views(before) + tuple_errors(*ty, items@, start, i as nat),
                decreases items@.len() - i,
            {
                path.push(Segment::Index(i));
                check_type(&elems[i], &items[i], path, errors);
                path.pop();
                proof {
                    assert(start.push(SegmentView::Index(i)).drop_last() =~= start);
                    assert(error_views(errors@) =~= error_views(before) + tuple_errors(*ty, items@, start, (i + 1) as nat));
                }
                i += 1;
            }
        },
        TypeShape::Path { qualified, segments } => {
            if *qualified || segments.len() == 0 {
                assert(error_views(errors@) =~= error_views(before) + type_errors(*ty, *value, old(path)@));
                return;
            }
            let segment = &segments[segments.len() - 1];
            let name = segment.ident.as_str();
            if scalar_name(name) {
                let r = check_scalar(name, value, path);
                push_error(errors, r);
            } else if str_eq(name, "Box") || str_eq(name, "Rc") || str_eq(name, "Arc") {
                match type_arg(segment, 0) {
                    Some(inner) => {
                        proof { lemma_element_type_smaller(*ty, 0); }
                        check_type(&inner.ty, value, path, errors);
                    },
                    None => {
                        assert(error_views(errors@) =~= error_views(before) + type_errors(*ty, *value, old(path)@));
                    },
                }
            } else if str_eq(name, "Option") {
                match type_arg(segment, 0) {
                    Some(inner) => {
                        if !(matches!(value, Value::Null)) {
                            proof { lemma_element_type_smaller(*ty, 0); }
                            check_type(&inner.ty, value, path, errors);
                        } else {
                            assert(error_views(errors@) =~= error_views(before) + type_errors(*ty, *value, old(path)@));
                        }
                    },
                    None => {
                        assert(error_views(errors@) =~= error_views(before) + type_errors(*ty, *value, old(path)@));
                    },
                }
            } else if str_eq(name, "Vec") || str_eq(name, "VecDeque") || str_eq(name, "HashSet") {
                let items = match value {
                    Value::Sequence(items) => items,
                    _ => {
                        push_error(errors, Err(ConfigError::type_mismatch(path, "sequence", value)));
                        return;
                    },
                };
                let inner = match type_arg(segment, 0) {
                    Some(inner) => inner,
                    None => {
                        assert(items_errors(*ty, items@, old(path)@, items@.len()) == Seq::<ErrorView>::empty());
                        assert(error_views(errors@) =~= error_views(before) + type_errors(*ty, *value, old(path)@));
                        return;
                    },
                };
                proof { lemma_element_type_smaller(*ty, 0); }
                let ghost start = path@;
                let mut i: usize = 0;
                while i < items.len()
                    invariant
                        *value == Value::Sequence(*items),
                        element_type(*ty, 0) == Some(*inner),
                        decreases_to!(*ty => inner.ty),
                        path@ == start,
                        i <= items@.len(),
                        error_views(errors@) == error_views(before) + items_errors(*ty, items@, start, i as nat),
                    decreases items@.len() - i,
                {
                    path.push(Segment::Index(i));
                    check_type(&inner.ty, &items[i], path, errors);
                    path.pop();
                    proof {
                        assert(start.push(SegmentView::Index(i)).drop_last() =~= start);
                        assert(error_views(errors@) =~= error_views(before) + items_errors(*ty, items@, start, (i + 1) as nat));
                    }
                    i += 1;
                }
            } else if str_eq(name, "HashMap") || str_eq(name, "BTreeMap") || str_eq(name, "IndexMap") {
                let table = match value {
                    Value::Table(t) => t,
                    _ => {
                        push_error(errors, Err(ConfigError::type_mismatch(path, "table", value)));
                        return;
                    },
                };
                let inner = match type_arg(segment, 1) {
                    Some(inner) => inner,
                    None => {
                        assert(entries_errors(*ty, table_entries(*table), old(path)@, table_entries(*table).len())
                            == Seq::<ErrorView>::empty());
                        assert(error_views(errors@) =~= error_views(before) + type_errors(*ty, *value, old(path)@));
                        return;
                    },
                };
                proof { lemma_element_type_smaller(*ty, 1); }
                let ghost start = path@;
                let n = table.len();
                let mut i: usize = 0;
                while i < n
                    invariant
                        *value == Value::Table(*table),
                        n == table_entries(*table).len(),
                        element_type(*ty, 1) == Some(*inner),
                        decreases_to!(*ty => inner.ty),
                        path@ == start,
                        i <= n,
                        error_views(errors@) == error_views(before) + entries_errors(*ty, table_entries(*table), start, i as nat),
                    decreases n - i,
                {
                    match table.get_index(i) {
                        Some((key, item)) => {
                            path.push(Segment::Key(key.clone()));
                            check_type(&inner.ty, item, path, errors);
                            path.pop();
                            proof {
                                assert(start.push(SegmentView::Key(key@)).drop_last() =~= start);
                                assert(error_views(errors@) =~= error_views(before)
                                    + entries_errors(*ty, table_entries(*table), start, (i + 1) as nat));
                            }
                        },
                        None => {},
                    }
                    i += 1;
                }
            } else if matches!(value, Value::Table(_)) {
                assert(error_views(errors@) =~= error_views(before) + type_errors(*ty, *value, old(path)@));
            } else {
                push_error(errors, Err(ConfigError::type_mismatch(path, "table", value)));
            }
        },
        TypeShape::Other => {
            assert(error_views(errors@) =~= error_views(before) + type_errors(*ty, *value, old(path)@));
        },
    }
}

/// The texts of a list of strings.
pub open spec fn texts(v: Seq<String>) -> Seq<Seq<char>> {
    v.map_values(|s: String| s@)
}

/// What each error of a list says.
pub open spec fn messages(errors: Seq<ErrorView>) -> Seq<Seq<char>> {
    errors.map_values(|e: ErrorView| message(e))
}

/// The errors of one field against the root table's entries: an absent key is an error only
/// for a required field, a present `null` is fine for an `Option` field, and any other value
/// is checked against the field's (inner) type at the key's path.
#[verifier::opaque]
pub open spec fn field_errors(field: FieldPlan, entries: Seq<(String, Value)>) -> Seq<ErrorView> {
    let path = seq![SegmentView::Key(field.key@)];
    match lookup(entries, field.key@) {
        None => if is_required(field) { seq![missing_view(render_path(path))] } else { Seq::empty() },
        Some(v) => if v is Null && option_inner(field.ty) is Some {
            Seq::empty()
        } else {
            type_errors(checked_type_spec(field).ty, v, path)
        },
    }
}

/// The errors of the first `n` fields, in field order.
pub open spec fn fields_errors(fields: Seq<FieldPlan>, entries: Seq<(String, Value)>, n: nat) -> Seq<ErrorView>
    decreases n,
{
    if n == 0 || n > fields.len() {
        Seq::empty()
    } else {
        fields_errors(fields, entries, (n - 1) as nat) + field_errors(fields[n - 1], entries)
    }
}

/// A field of type `Option<T>` whose key holds a value other than `null` is checked exactly as
/// that value against `T`, at the key's path: checking the fields up to and including it adds
/// the errors of `T` for the value, and nothing else; for a struct with that field alone those
/// are all the check reports. A `null` there adds nothing.
pub proof fn law_option_field_checks_the_inner_type(fields: Seq<FieldPlan>, t: Table, k: int, inner: TypedArg, v: Value)
    requires
        0 <= k < fields.len(),
        option_inner(fields[k].ty) == Some(inner),
        lookup(table_entries(t), fields[k].key@) == Some(v),
    ensures
        !(v is Null) ==> fields_errors(fields, table_entries(t), (k + 1) as nat)
            == fields_errors(fields, table_entries(t), k as nat) + type_errors(inner.ty, v, seq![SegmentView::Key(fields[k].key@)]),
        !(v is Null) && fields.len() == 1 ==> root_errors(fields, Value::Table(t))
            == type_errors(inner.ty, v, seq![SegmentView::Key(fields[k].key@)]),
        v is Null ==> fields_errors(fields, table_entries(t), (k + 1) as nat) == fields_errors(fields, table_entries(t), k as nat),
{
    reveal(field_errors);
    let e = table_entries(t);
    assert(fields_errors(fields, e, (k + 1) as nat) == fields_errors(fields, e, k as nat) + field_errors(fields[k], e));
    if v is Null {
        assert(fields_errors(fields, e, k as nat) + Seq::<ErrorView>::empty() =~= fields_errors(fields, e, k as nat));
    }
    if fields.len() == 1 && k == 0 {
        assert(fields_errors(fields, e, 0) =~= Seq::<ErrorView>::empty());
        assert(Seq::<ErrorView>::empty() + field_errors(fields[0], e) =~= field_errors(fields[0], e));
    }
}

/// With the check of `T`'s type in exact agreement with `T`'s runtime conversion (as
/// `law_check_agrees_on_scalars` gives for every scalar), a non-`null` value under an
/// `Option<T>` field adds exactly the error converting it into `T` gives at the key's path: so a
/// string under an `Option<u16>` field is one type error, at build time.
pub proof fn law_option_field_checks_like_the_runtime<T: FromValue>(fields: Seq<FieldPlan>, t: Table, k: int, inner: TypedArg, v: Value)
    requires
        0 <= k < fields.len(),
        option_inner(fields[k].ty) == Some(inner),
        lookup(table_entries(t), fields[k].key@) == Some(v),
        !(v is Null),
        agrees_exactly::<T>(inner.ty),
    ensures
        fields_errors(fields, table_entries(t), (k + 1) as nat)
            == fields_errors(fields, table_entries(t), k as nat)
                + opt_errors(T::conversion_error(v, seq![SegmentView::Key(fields[k].key@)])),
{
    law_option_field_checks_the_inner_type(fields, t, k, inner, v);
    assert(type_errors(inner.ty, v, seq![SegmentView::Key(fields[k].key@)])
        == opt_errors(T::conversion_error(v, seq![SegmentView::Key(fields[k].key@)])));
}

/// Every error checking `root` against `fields`: a root that is not a table is one error,
/// else each field's errors in field order.
pub open spec fn root_errors(fields: Seq<FieldPlan>, root: Value) -> Seq<ErrorView> {
    match root {
        Value::Table(t) => fields_errors(fields, table_entries(t), fields.len()),
        _ => seq![type_view(render_path(Seq::empty()), "table"@, root)],
    }
}

/// The messages of `errors`, in order.
fn to_messages(errors: &Vec<ConfigError>) -> (r: Vec<String>)
    ensures
        texts(r@) == messages(error_views(errors@)),
{
    let mut out: Vec<String> = Vec::new();
    let mut i: usize = 0;
    while i < errors.len()
        invariant
            i <= errors@.len(),
            texts(out@) == messages(error_views(errors@.take(i as int))),
        decreases errors@.len() - i,
    {
        let ghost before = out@;
        let m = errors[i].to_string();
        out.push(m);
        proof {
            assert(texts(out@) =~= texts(before).push(m@));
            assert(errors@.take(i + 1) =~= errors@.take(i as int).push(errors@[i as int]));
            assert(error_views(errors@.take(i + 1)) =~= error_views(errors@.take(i as int)).push(errors@[i as int]@));
            assert(messages(error_views(errors@.take(i + 1)))
                =~= messages(error_views(errors@.take(i as int))).push(message(errors@[i as int]@)));
        }
        i += 1;
    }
    assert(errors@.take(i as int) =~= errors@);
    out
}

/// Checks the field `field` of the root table `map`, pushing its errors onto `errors`.
fn check_field(field: &FieldPlan, map: &Table, errors: &mut Vec<ConfigError>)
    ensures
        error_views(final(errors)@) == error_views(old(errors)@) + field_errors(*field, table_entries(*map)),
{
    reveal(field_errors);
    let ghost before = errors@;
    let ghost key_path = seq![SegmentView::Key(field.key@)];
    let mut path = PathStack::new();
    path.push(Segment::Key(field.key.clone()));
    assert(path@ =~= key_path);
    match map.get(field.key.as_str()) {
        None => {
            if field.required() {
                errors.push(ConfigError::missing(&path));
                assert(error_views(errors@) =~= error_views(before) + seq![missing_view(render_path(key_path))]);
            } else {
                assert(error_views(errors@) =~= error_views(before) + Seq::<ErrorView>::empty());
            }
        },
        Some(value) => {
            if matches!(value, Value::Null) && field.optional().is_some() {
                assert(error_views(errors@) =~= error_views(before) + Seq::<ErrorView>::empty());
            } else {
                check_type(&field.checked_type().ty, value, &mut path, errors);
            }
        },
    }
}

/// Checks `root` against `fields`, returning every error message rather than stopping at the
/// first.
pub fn check_fields(fields: &[FieldPlan], root: &Value) -> (r: Vec<String>)
    ensures
        texts(r@) == messages(root_errors(fields@, *root)),
{
    let mut errors: Vec<ConfigError> = Vec::new();
    let map = match root {
        Value::Table(t) => t,
        _ => {
            let path = PathStack::new();
            errors.push(ConfigError::type_mismatch(&path, "table", root));
            assert(error_views(errors@) =~= root_errors(fields@, *root));
            return to_messages(&errors);
        },
    };
    assert(error_views(errors@) =~= Seq::<ErrorView>::empty());
    let mut i: usize = 0;
    while i < fields.len()
        invariant
            *root == Value::Table(*map),
            i <= fields@.len(),
            error_views(errors@) == fields_errors(fields@, table_entries(*map), i as nat),
        decreases fields@.len() - i,
    {
        check_field(&fields[i], map, &mut errors);
        i += 1;
    }
    to_messages(&errors)
}

/// `prefix` before each message.
pub open spec fn prefixed(prefix: Seq<char>, ms: Seq<Seq<char>>) -> Seq<Seq<char>> {
    ms.map_values(|m: Seq<char>| prefix + m)
}

/// What checking the text of the config file `file` gives once its format has been chosen as
/// `chosen`: an unknown format is one message, a parse error one message with the line and
/// column where there are ones, and a parsed value every field error, each message naming the
/// file as written.
pub open spec fn check_outcome(
    file: Seq<char>,
    chosen: Result<Seq<char>, Seq<char>>,
    text: Seq<char>,
    fields: Seq<FieldPlan>,
    r: Seq<Seq<char>>,
) -> bool {
    match chosen {
        Err(m) => r == seq!["config file `"@ + file + "`: "@ + m],
        Ok(name) => exists|parsed: Result<Value, ParseError>|
            #![trigger parsed_outcome(file, text, fields, parsed, r)]
            parses_as(name, text, parsed) && parsed_outcome(file, text, fields, parsed, r),
    }
}

/// What checking gives once the file's text has been parsed into `parsed`.
pub open spec fn parsed_outcome(
    file: Seq<char>,
    text: Seq<char>,
    fields: Seq<FieldPlan>,
    parsed: Result<Value, ParseError>,
    r: Seq<Seq<char>>,
) -> bool {
    match parsed {
        Err(e) => r == seq![parse_message_spec(file, text, e)],
        Ok(v) => r == prefixed(file + ": "@, messages(root_errors(fields, v))),
    }
}

/// The message for a parse error `e` in `file`: `file:line:col: message`, or `file: message`
/// when the error has no position in `text`.
pub open spec fn parse_message_spec(file: Seq<char>, text: Seq<char>, e: ParseError) -> Seq<char> {
    match line_col_of(text, e.offset) {
        Some((line, col)) => file + ":"@ + decimal(line as nat) + ":"@ + decimal(col as nat) + ": "@ + e.message@,
        None => file + ": "@ + e.message@,
    }
}

/// The message for a parse error in `file`, with its line and column when it has them.
fn parse_message(file: &str, e: &ParseError, text: &str) -> (r: String)
    ensures
        r@ == parse_message_spec(file@, text@, *e),
{
    proof {
        reveal_strlit(":");
        reveal_strlit(": ");
    }
    let mut out = String::from_str(file);
    match e.line_col(text) {
        Some((line, col)) => {
            out.append(":");
            push_decimal(&mut out, line as u64);
            out.append(":");
            push_decimal(&mut out, col as u64);
            out.append(": ");
        },
        None => {
            out.append(": ");
        },
    }
    out.append(e.message.as_str());
    out
}

/// Type-checks the text of the config file `file` (as written in the attribute) against
/// `fields`: picks the format from `explicit`, else the extension of `resolved`, else a sniff
/// of the text; parses; and checks every field. Returns every message, each naming `file`; no
/// message means the file passes.
pub fn check_text(file: &str, explicit: Option<&str>, resolved: &str, text: &str, fields: &[FieldPlan]) -> (r: Vec<String>)
    ensures
        check_outcome(
            file@,
            choose_feature(opt_view(explicit), if explicit is Some { None } else { path_extension(resolved@) }, text@),
            text@,
            fields@,
            texts(r@),
        ),
{
    proof {
        reveal_strlit("config file `");
        reveal_strlit("`: ");
    }
    let format = match select(explicit, resolved, text) {
        Ok(f) => f,
        Err(e) => {
            let head = concat("config file `", file);
            let m = concat(head.as_str(), "`: ");
            let m = concat(m.as_str(), e.message.as_str());
            let r = vec![m];
            assert(texts(r@) =~= seq!["config file `"@ + file@ + "`: "@ + e.message@]);
            return r;
        },
    };
    let parsed = format.parse(text);
    let ghost pv = parsed;
    match parsed {
        Err(e) => {
            let r = vec![parse_message(file, &e, text)];
            assert(texts(r@) =~= seq![parse_message_spec(file@, text@, e)]);
            assert(parsed_outcome(file@, text@, fields@, pv, texts(r@)));
            r
        },
        Ok(v) => {
            let ms = check_fields(fields, &v);
            let prefix = concat(file, ": ");
            let mut out: Vec<String> = Vec::new();
            let mut i: usize = 0;
            while i < ms.len()
                invariant
                    i <= ms@.len(),
                    prefix@ == file@ + ": "@,
                    texts(out@) == prefixed(prefix@, texts(ms@.take(i as int))),
                decreases ms@.len() - i,
            {
                let ghost before = out@;
                let m = concat(prefix.as_str(), ms[i].as_str());
                out.push(m);
                proof {
                    assert(texts(out@) =~= texts(before).push(m@));
                    assert(ms@.take(i + 1) =~= ms@.take(i as int).push(ms@[i as int]));
                    assert(texts(ms@.take(i + 1)) =~= texts(ms@.take(i as int)).push(ms@[i as int]@));
                    assert(prefixed(prefix@, texts(ms@.take(i + 1)))
                        =~= prefixed(prefix@, texts(ms@.take(i as int))).push(prefix@ + ms@[i as int]@));
                }
                i += 1;
            }
            assert(ms@.take(i as int) =~= ms@);
            assert(parsed_outcome(file@, text@, fields@, pv, texts(out@)));
            out
        },
    }
}

/// The first of a list of errors, if any.
pub open spec fn first_error(errors: Seq<ErrorView>) -> Option<ErrorView> {
    if errors.len() > 0 { Some(errors[0]) } else { None }
}

/// Whether the check of `ty` and the runtime conversion into `T` agree on every value and
/// path: the check finds an error exactly when the conversion fails, and its first error is the
/// conversion's error.
pub open spec fn agrees<T: FromValue>(ty: TypeShape) -> bool {
    forall|v: Value, p: Seq<SegmentView>| #[trigger] first_error(type_errors(ty, v, p)) == T::conversion_error(v, p)
}

/// The first error of `a + b` is the first error of `a`, or else of `b`.
proof fn lemma_first_error_concat(a: Seq<ErrorView>, b: Seq<ErrorView>)
    ensures
        first_error(a + b) == (if a.len() > 0 { first_error(a) } else { first_error(b) }),
{
    if a.len() > 0 {
    } else {
        assert(a + b =~= b);
    }
}


/// The lengths and leading chars of the type names the check dispatches on, which tell them
/// apart.
proof fn lemma_type_names()
    ensures
        "i8"@.len() == 2 && "i8"@[0] == 'i' && "i8"@[1] == '8',
        "i16"@.len() == 3 && "i16"@[0] == 'i' && "i16"@[1] == '1' && "i16"@[2] == '6',
        "i32"@.len() == 3 && "i32"@[0] == 'i' && "i32"@[1] == '3' && "i32"@[2] == '2',
        "i64"@.len() == 3 && "i64"@[0] == 'i' && "i64"@[1] == '6' && "i64"@[2] == '4',
        "i128"@.len() == 4 && "i128"@[0] == 'i' && "i128"@[1] == '1' && "i128"@[2] == '2' && "i128"@[3] == '8',
        "isize"@.len() == 5 && "isize"@[0] == 'i' && "isize"@[1] == 's' && "isize"@[2] == 'i' && "isize"@[3] == 'z' && "isize"@[4] == 'e',
        "u8"@.len() == 2 && "u8"@[0] == 'u' && "u8"@[1] == '8',
        "u16"@.len() == 3 && "u16"@[0] == 'u' && "u16"@[1] == '1' && "u16"@[2] == '6',
        "u32"@.len() == 3 && "u32"@[0] == 'u' && "u32"@[1] == '3' && "u32"@[2] == '2',
        "u64"@.len() == 3 && "u64"@[0] == 'u' && "u64"@[1] == '6' && "u64"@[2] == '4',
        "u128"@.len() == 4 && "u128"@[0] == 'u' && "u128"@[1] == '1' && "u128"@[2] == '2' && "u128"@[3] == '8',
        "usize"@.len() == 5 && "usize"@[0] == 'u' && "usize"@[1] == 's' && "usize"@[2] == 'i' && "usize"@[3] == 'z' && "usize"@[4] == 'e',
        "f32"@.len() == 3 && "f32"@[0] == 'f' && "f32"@[1] == '3' && "f32"@[2] == '2',
        "f64"@.len() == 3 && "f64"@[0] == 'f' && "f64"@[1] == '6' && "f64"@[2] == '4',
        "bool"@.len() == 4 && "bool"@[0] == 'b' && "bool"@[1] == 'o' && "bool"@[2] == 'o' && "bool"@[3] == 'l',
        "String"@.len() == 6 && "String"@[0] == 'S' && "String"@[1] == 't' && "String"@[2] == 'r' && "String"@[3] == 'i' && "String"@[4] == 'n' && "String"@[5] == 'g',
        "PathBuf"@.len() == 7 && "PathBuf"@[0] == 'P' && "PathBuf"@[1] == 'a' && "PathBuf"@[2] == 't' && "PathBuf"@[3] == 'h' && "PathBuf"@[4] == 'B' && "PathBuf"@[5] == 'u' && "PathBuf"@[6] == 'f',
        "char"@.len() == 4 && "char"@[0] == 'c' && "char"@[1] == 'h' && "char"@[2] == 'a' && "char"@[3] == 'r',
        "Datetime"@.len() == 8 && "Datetime"@[0] == 'D' && "Datetime"@[1] == 'a' && "Datetime"@[2] == 't' && "Datetime"@[3] == 'e' && "Datetime"@[4] == 't' && "Datetime"@[5] == 'i' && "Datetime"@[6] == 'm' && "Datetime"@[7] == 'e',
        "Box"@.len() == 3 && "Box"@[0] == 'B' && "Box"@[1] == 'o' && "Box"@[2] == 'x',
        "Rc"@.len() == 2 && "Rc"@[0] == 'R' && "Rc"@[1] == 'c',
        "Arc"@.len() == 3 && "Arc"@[0] == 'A' && "Arc"@[1] == 'r' && "Arc"@[2] == 'c',
        "Option"@.len() == 6 && "Option"@[0] == 'O' && "Option"@[1] == 'p' && "Option"@[2] == 't' && "Option"@[3] == 'i' && "Option"@[4] == 'o' && "Option"@[5] == 'n',
        "Vec"@.len() == 3 && "Vec"@[0] == 'V' && "Vec"@[1] == 'e' && "Vec"@[2] == 'c',
        "VecDeque"@.len() == 8 && "VecDeque"@[0] == 'V' && "VecDeque"@[1] == 'e' && "VecDeque"@[2] == 'c' && "VecDeque"@[3] == 'D' && "VecDeque"@[4] == 'e' && "VecDeque"@[5] == 'q' && "VecDeque"@[6] == 'u' && "VecDeque"@[7] == 'e',
        "HashSet"@.len() == 7 && "HashSet"@[0] == 'H' && "HashSet"@[1] == 'a' && "HashSet"@[2] == 's' && "HashSet"@[3] == 'h' && "HashSet"@[4] == 'S' && "HashSet"@[5] == 'e' && "HashSet"@[6] == 't',
        "HashMap"@.len() == 7 && "HashMap"@[0] == 'H' && "HashMap"@[1] == 'a' && "HashMap"@[2] == 's' && "HashMap"@[3] == 'h' && "HashMap"@[4] == 'M' && "HashMap"@[5] == 'a' && "HashMap"@[6] == 'p',
        "BTreeMap"@.len() == 8 && "BTreeMap"@[0] == 'B' && "BTreeMap"@[1] == 'T' && "BTreeMap"@[2] == 'r' && "BTreeMap"@[3] == 'e' && "BTreeMap"@[4] == 'e' && "BTreeMap"@[5] == 'M' && "BTreeMap"@[6] == 'a' && "BTreeMap"@[7] == 'p',
        "IndexMap"@.len() == 8 && "IndexMap"@[0] == 'I' && "IndexMap"@[1] == 'n' && "IndexMap"@[2] == 'd' && "IndexMap"@[3] == 'e' && "IndexMap"@[4] == 'x' && "IndexMap"@[5] == 'M' && "IndexMap"@[6] == 'a' && "IndexMap"@[7] == 'p',
{
    reveal_strlit("i8");
    reveal_strlit("i16");
    reveal_strlit("i32");
    reveal_strlit("i64");
    reveal_strlit("i128");
    reveal_strlit("isize");
    reveal_strlit("u8");
    reveal_strlit("u16");
    reveal_strlit("u32");
    reveal_strlit("u64");
    reveal_strlit("u128");
    reveal_strlit("usize");
    reveal_strlit("f32");
    reveal_strlit("f64");
    reveal_strlit("bool");
    reveal_strlit("String");
    reveal_strlit("PathBuf");
    reveal_strlit("char");
    reveal_strlit("Datetime");
    reveal_strlit("Box");
    reveal_strlit("Rc");
    reveal_strlit("Arc");
    reveal_strlit("Option");
    reveal_strlit("Vec");
    reveal_strlit("VecDeque");
    reveal_strlit("HashSet");
    reveal_strlit("HashMap");
    reveal_strlit("BTreeMap");
    reveal_strlit("IndexMap");
}

/// Integers widen to floats only when exact: a float takes any float, and an integer only
/// within `i32` for `f64` and within `i16` for `f32`.
pub proof fn law_integers_widen_to_floats_only_when_exact(v: Value, p: Seq<SegmentView>)
    ensures
        scalar_error("f64"@, v, p) is None <==> (v is Float || (v is Int && i32::MIN <= v->Int_0 <= i32::MAX)),
        scalar_error("f32"@, v, p) is None <==> (v is Float || (v is Int && i16::MIN <= v->Int_0 <= i16::MAX)),
{
    lemma_type_names();
}

/// For a scalar, the check's first error is the scalar's conversion error.
proof fn lemma_scalar_first_error(ty: TypeShape)
    requires
        last_segment(ty) is Some,
        is_scalar(last_segment(ty)->0.ident@),
    ensures
        forall|v: Value, p: Seq<SegmentView>| #[trigger] first_error(type_errors(ty, v, p))
            == scalar_error(last_segment(ty)->0.ident@, v, p),
{
    assert forall|v: Value, p: Seq<SegmentView>| #[trigger] first_error(type_errors(ty, v, p))
        == scalar_error(last_segment(ty)->0.ident@, v, p) by {
    }
}

/// Whether the check of `ty` adds, on every value and path, exactly the conversion's error into
/// `T` and nothing else: no error when the conversion succeeds, its error when it fails.
pub open spec fn agrees_exactly<T: FromValue>(ty: TypeShape) -> bool {
    forall|v: Value, p: Seq<SegmentView>| #[trigger] type_errors(ty, v, p) == opt_errors(T::conversion_error(v, p))
}

/// The errors of a scalar type are those of its runtime rule.
proof fn lemma_scalar_errors(ty: TypeShape)
    requires
        last_segment(ty) is Some,
        is_scalar(last_segment(ty)->0.ident@),
    ensures
        forall|v: Value, p: Seq<SegmentView>| #[trigger] type_errors(ty, v, p)
            == opt_errors(scalar_error(last_segment(ty)->0.ident@, v, p)),
{
    assert forall|v: Value, p: Seq<SegmentView>| #[trigger] type_errors(ty, v, p)
        == opt_errors(scalar_error(last_segment(ty)->0.ident@, v, p)) by {
    }
}

/// Every scalar is checked by its runtime conversion: for a path type whose last segment names
/// an integer type, `bool`, `String`, `char`, `PathBuf` or `Datetime`, the check adds exactly
/// the error that the conversion into that type gives (none when it succeeds), and so the two
/// agree.
pub proof fn law_check_agrees_on_scalars(ty: TypeShape)
    requires
        last_segment(ty) is Some,
    ensures
        last_segment(ty)->0.ident@ == "i8"@ ==> agrees_exactly::<i8>(ty) && agrees::<i8>(ty),
        last_segment(ty)->0.ident@ == "i16"@ ==> agrees_exactly::<i16>(ty) && agrees::<i16>(ty),
        last_segment(ty)->0.ident@ == "i32"@ ==> agrees_exactly::<i32>(ty) && agrees::<i32>(ty),
        last_segment(ty)->0.ident@ == "i64"@ ==> agrees_exactly::<i64>(ty) && agrees::<i64>(ty),
        last_segment(ty)->0.ident@ == "i128"@ ==> agrees_exactly::<i128>(ty) && agrees::<i128>(ty),
        last_segment(ty)->0.ident@ == "isize"@ ==> agrees_exactly::<isize>(ty) && agrees::<isize>(ty),
        last_segment(ty)->0.ident@ == "u8"@ ==> agrees_exactly::<u8>(ty) && agrees::<u8>(ty),
        last_segment(ty)->0.ident@ == "u16"@ ==> agrees_exactly::<u16>(ty) && agrees::<u16>(ty),
        last_segment(ty)->0.ident@ == "u32"@ ==> agrees_exactly::<u32>(ty) && agrees::<u32>(ty),
        last_segment(ty)->0.ident@ == "u64"@ ==> agrees_exactly::<u64>(ty) && agrees::<u64>(ty),
        last_segment(ty)->0.ident@ == "u128"@ ==> agrees_exactly::<u128>(ty) && agrees::<u128>(ty),
        last_segment(ty)->0.ident@ == "usize"@ ==> agrees_exactly::<usize>(ty) && agrees::<usize>(ty),
        last_segment(ty)->0.ident@ == "bool"@ ==> agrees_exactly::<bool>(ty) && agrees::<bool>(ty),
        last_segment(ty)->0.ident@ == "String"@ ==> agrees_exactly::<String>(ty) && agrees::<String>(ty),
        last_segment(ty)->0.ident@ == "PathBuf"@ ==> agrees_exactly::<PathBuf>(ty) && agrees::<PathBuf>(ty),
        last_segment(ty)->0.ident@ == "char"@ ==> agrees_exactly::<char>(ty) && agrees::<char>(ty),
        last_segment(ty)->0.ident@ == "Datetime"@ ==> agrees_exactly::<Datetime>(ty) && agrees::<Datetime>(ty),
{
    lemma_type_names();
    if is_scalar(last_segment(ty)->0.ident@) {
        lemma_scalar_first_error(ty);
        lemma_scalar_errors(ty);
    }
}

/// Taking one more item onto a prefix adds its error after the prefix's.
proof fn lemma_items_error_snoc<T: FromValue>(items: Seq<Value>, p: Seq<SegmentView>, n: int, i: int)
    requires
        0 <= i <= n < items.len(),
    ensures
        or_else(items_error::<T>(items.take(n), p, i), T::conversion_error(items[n], p.push(SegmentView::Index(n as usize))))
            == items_error::<T>(items.take(n + 1), p, i),
    decreases n - i,
{
    assert(items.take(n + 1)[n] == items[n]);
    if i < n {
        lemma_items_error_snoc::<T>(items, p, n, i + 1);
    }
}

/// The first error of the check of the first `n` items is the first conversion error among them.
proof fn lemma_items_first<T: FromValue>(ty: TypeShape, items: Seq<Value>, p: Seq<SegmentView>, n: nat)
    requires
        element_type(ty, 0) is Some,
        agrees::<T>(element_type(ty, 0)->0.ty),
        n <= items.len(),
    ensures
        first_error(items_errors(ty, items, p, n)) == items_error::<T>(items.take(n as int), p, 0),
    decreases n,
{
    if n > 0 {
        let k = n - 1;
        let inner = element_type(ty, 0)->0;
        lemma_items_first::<T>(ty, items, p, k as nat);
        let q = p.push(SegmentView::Index(k as usize));
        lemma_first_error_concat(items_errors(ty, items, p, k as nat), type_errors(inner.ty, items[k], q));
        lemma_items_error_snoc::<T>(items, p, k, 0);
    }
}

/// Taking one more entry onto a prefix adds its error after the prefix's.
proof fn lemma_entries_error_snoc<T: FromValue>(entries: Seq<(String, Value)>, p: Seq<SegmentView>, n: int, i: int)
    requires
        0 <= i <= n < entries.len(),
    ensures
        or_else(
            entries_error::<T>(entries.take(n), p, i),
            T::conversion_error(entries[n].1, p.push(SegmentView::Key(entries[n].0@))),
        ) == entries_error::<T>(entries.take(n + 1), p, i),
    decreases n - i,
{
    assert(entries.take(n + 1)[n] == entries[n]);
    if i < n {
        lemma_entries_error_snoc::<T>(entries, p, n, i + 1);
    }
}

/// The first error of the check of the first `n` entries is the first conversion error among
/// them.
proof fn lemma_entries_first<T: FromValue>(ty: TypeShape, entries: Seq<(String, Value)>, p: Seq<SegmentView>, n: nat)
    requires
        element_type(ty, 1) is Some,
        agrees::<T>(element_type(ty, 1)->0.ty),
        n <= entries.len(),
    ensures
        first_error(entries_errors(ty, entries, p, n)) == entries_error::<T>(entries.take(n as int), p, 0),
    decreases n,
{
    if n > 0 {
        let k = n - 1;
        let inner = element_type(ty, 1)->0;
        lemma_entries_first::<T>(ty, entries, p, k as nat);
        let q = p.push(SegmentView::Key(entries[k].0@));
        lemma_first_error_concat(entries_errors(ty, entries, p, k as nat), type_errors(inner.ty, entries[k].1, q));
        lemma_entries_error_snoc::<T>(entries, p, k, 0);
    }
}

/// `Option<T>` is checked as the runtime converts it: when the check of the inner type agrees
/// with `T`, the check of `Option<inner>` agrees with `Option<T>` (a `null` is fine for both).
pub proof fn law_check_agrees_on_option<T: FromValue>(ty: TypeShape)
    requires
        last_segment(ty) is Some,
        last_segment(ty)->0.ident@ == "Option"@,
        element_type(ty, 0) is Some,
        agrees::<T>(element_type(ty, 0)->0.ty),
    ensures
        agrees::<Option<T>>(ty),
{
    lemma_type_names();
    let inner = element_type(ty, 0)->0;
    assert forall|v: Value, p: Seq<SegmentView>| #[trigger] first_error(type_errors(ty, v, p))
        == <Option<T> as FromValue>::conversion_error(v, p) by {
        if !(v is Null) {
            assert(first_error(type_errors(inner.ty, v, p)) == T::conversion_error(v, p));
        }
    }
}

/// `Box`, `Rc` and `Arc` are checked as what they hold: when the check of the inner type agrees
/// with `T`, the check of the pointer type agrees with `Box<T>`, `Rc<T>` or `Arc<T>`.
pub proof fn law_check_agrees_on_smart_pointers<T: FromValue>(ty: TypeShape)
    requires
        last_segment(ty) is Some,
        element_type(ty, 0) is Some,
        agrees::<T>(element_type(ty, 0)->0.ty),
    ensures
        last_segment(ty)->0.ident@ == "Box"@ ==> agrees::<Box<T>>(ty),
        last_segment(ty)->0.ident@ == "Rc"@ ==> agrees::<Rc<T>>(ty),
        last_segment(ty)->0.ident@ == "Arc"@ ==> agrees::<Arc<T>>(ty),
{
    lemma_type_names();
    let name = last_segment(ty)->0.ident@;
    let inner = element_type(ty, 0)->0;
    if name == "Box"@ || name == "Rc"@ || name == "Arc"@ {
        assert forall|v: Value, p: Seq<SegmentView>| #[trigger] first_error(type_errors(ty, v, p))
            == T::conversion_error(v, p) by {
            assert(first_error(type_errors(inner.ty, v, p)) == T::conversion_error(v, p));
        }
    }
}

/// The check of a sequence type agrees with the conversion into `Vec<T>`.
proof fn lemma_sequence_agrees<T: FromValue>(ty: TypeShape)
    requires
        last_segment(ty) is Some,
        last_segment(ty)->0.ident@ == "Vec"@ || last_segment(ty)->0.ident@ == "VecDeque"@
            || last_segment(ty)->0.ident@ == "HashSet"@,
        element_type(ty, 0) is Some,
        agrees::<T>(element_type(ty, 0)->0.ty),
    ensures
        forall|v: Value, p: Seq<SegmentView>| #[trigger] first_error(type_errors(ty, v, p))
            == <Vec<T> as FromValue>::conversion_error(v, p),
{
    lemma_type_names();
    assert forall|v: Value, p: Seq<SegmentView>| #[trigger] first_error(type_errors(ty, v, p))
        == <Vec<T> as FromValue>::conversion_error(v, p) by {
        if let Value::Sequence(items) = v {
            lemma_items_first::<T>(ty, items@, p, items@.len());
            assert(items@.take(items@.len() as int) =~= items@);
        }
    }
}

/// The check of a map type agrees with the conversion into `HashMap<String, T>`.
proof fn lemma_map_agrees<T: FromValue>(ty: TypeShape)
    requires
        last_segment(ty) is Some,
        last_segment(ty)->0.ident@ == "HashMap"@ || last_segment(ty)->0.ident@ == "BTreeMap"@
            || last_segment(ty)->0.ident@ == "IndexMap"@,
        element_type(ty, 1) is Some,
        agrees::<T>(element_type(ty, 1)->0.ty),
    ensures
        forall|v: Value, p: Seq<SegmentView>| #[trigger] first_error(type_errors(ty, v, p))
            == <HashMap<String, T> as FromValue>::conversion_error(v, p),
{
    lemma_type_names();
    assert forall|v: Value, p: Seq<SegmentView>| #[trigger] first_error(type_errors(ty, v, p))
        == <HashMap<String, T> as FromValue>::conversion_error(v, p) by {
        if let Value::Table(t) = v {
            lemma_entries_first::<T>(ty, table_entries(t), p, table_entries(t).len());
            assert(table_entries(t).take(table_entries(t).len() as int) =~= table_entries(t));
        }
    }
}

/// Sequences are checked as the runtime converts them: when the check of the element type
/// agrees with `T`, the check of `Vec<element>` agrees with `Vec<T>` and that of
/// `VecDeque<element>` with `VecDeque<T>`, and the first item error the check reports (it
/// reports them all) is the one the conversion stops at.
pub proof fn law_check_agrees_on_sequences<T: FromValue>(ty: TypeShape)
    requires
        last_segment(ty) is Some,
        element_type(ty, 0) is Some,
        agrees::<T>(element_type(ty, 0)->0.ty),
    ensures
        last_segment(ty)->0.ident@ == "Vec"@ ==> agrees::<Vec<T>>(ty),
        last_segment(ty)->0.ident@ == "VecDeque"@ ==> agrees::<VecDeque<T>>(ty),
{
    let name = last_segment(ty)->0.ident@;
    if name == "Vec"@ || name == "VecDeque"@ {
        lemma_sequence_agrees::<T>(ty);
    }
}

/// A `HashSet` is checked as the runtime converts it, item by item like a `Vec`.
pub proof fn law_check_agrees_on_hash_sets<T: FromValue + Hash + Eq>(ty: TypeShape)
    requires
        last_segment(ty) is Some,
        last_segment(ty)->0.ident@ == "HashSet"@,
        element_type(ty, 0) is Some,
        agrees::<T>(element_type(ty, 0)->0.ty),
    ensures
        agrees::<HashSet<T>>(ty),
{
    lemma_sequence_agrees::<T>(ty);
}

/// Maps with string keys are checked as the runtime converts them: when the check of the value
/// type agrees with `T`, the check of `HashMap<String, value>` agrees with `HashMap<String, T>`
/// and those of `BTreeMap<String, value>` and `IndexMap<String, value>` with `BTreeMap<String, T>`
/// and `IndexMap<String, T>`, and the first entry error
/// the check reports is the one the conversion stops at.
pub proof fn law_check_agrees_on_maps<T: FromValue>(ty: TypeShape)
    requires
        last_segment(ty) is Some,
        element_type(ty, 1) is Some,
        agrees::<T>(element_type(ty, 1)->0.ty),
    ensures
        last_segment(ty)->0.ident@ == "HashMap"@ ==> agrees::<HashMap<String, T>>(ty),
        last_segment(ty)->0.ident@ == "BTreeMap"@ ==> agrees::<BTreeMap<String, T>>(ty),
        last_segment(ty)->0.ident@ == "IndexMap"@ ==> agrees::<IndexMap<String, T>>(ty),
{
    let name = last_segment(ty)->0.ident@;
    if name == "HashMap"@ || name == "BTreeMap"@ || name == "IndexMap"@ {
        lemma_map_agrees::<T>(ty);
    }
}

/// The first error of the check of the first `n` items of a tuple, step by step.
proof fn lemma_tuple_first(ty: TypeShape, items: Seq<Value>, p: Seq<SegmentView>, n: nat)
    requires
        ty is Tuple,
        items.len() == ty->Tuple_0@.len(),
        0 < n <= items.len(),
    ensures
        first_error(tuple_errors(ty, items, p, n)) == or_else(
            first_error(tuple_errors(ty, items, p, (n - 1) as nat)),
            first_error(type_errors(ty->Tuple_0@[n - 1], items[n - 1], p.push(SegmentView::Index((n - 1) as usize)))),
        ),
{
    let k = n - 1;
    lemma_first_error_concat(
        tuple_errors(ty, items, p, k as nat),
        type_errors(ty->Tuple_0@[k], items[k], p.push(SegmentView::Index(k as usize))),
    );
}

/// A pair is checked as the runtime converts it: when the checks of its two element types
/// agree with `A` and `B`, the check of the tuple type agrees with `(A, B)`.
pub proof fn law_check_agrees_on_pairs<A: FromValue, B: FromValue>(ty: TypeShape)
    requires
        ty is Tuple,
        ty->Tuple_0@.len() == 2,
        agrees::<A>(ty->Tuple_0@[0]),
        agrees::<B>(ty->Tuple_0@[1]),
    ensures
        agrees::<(A, B)>(ty),
{
    let elems = ty->Tuple_0@;
    assert forall|v: Value, p: Seq<SegmentView>| #[trigger] first_error(type_errors(ty, v, p))
        == <(A, B) as FromValue>::conversion_error(v, p) by {
        if let Value::Sequence(items) = v {
            if items@.len() == 2 {
                lemma_tuple_first(ty, items@, p, 1);
                lemma_tuple_first(ty, items@, p, 2);
            }
        }
    }
}

/// A triple is checked as the runtime converts it.
pub proof fn law_check_agrees_on_triples<A: FromValue, B: FromValue, C: FromValue>(ty: TypeShape)
    requires
        ty is Tuple,
        ty->Tuple_0@.len() == 3,
        agrees::<A>(ty->Tuple_0@[0]),
        agrees::<B>(ty->Tuple_0@[1]),
        agrees::<C>(ty->Tuple_0@[2]),
    ensures
        agrees::<(A, B, C)>(ty),
{
    let elems = ty->Tuple_0@;
    assert forall|v: Value, p: Seq<SegmentView>| #[trigger] first_error(type_errors(ty, v, p))
        == <(A, B, C) as FromValue>::conversion_error(v, p) by {
        if let Value::Sequence(items) = v {
            if items@.len() == 3 {
                lemma_tuple_first(ty, items@, p, 1);
                lemma_tuple_first(ty, items@, p, 2);
                lemma_tuple_first(ty, items@, p, 3);
            }
        }
    }
}

/// A quadruple is checked as the runtime converts it.
pub proof fn law_check_agrees_on_quadruples<A: FromValue, B: FromValue, C: FromValue, D: FromValue>(ty: TypeShape)
    requires
        ty is Tuple,
        ty->Tuple_0@.len() == 4,
        agrees::<A>(ty->Tuple_0@[0]),
        agrees::<B>(ty->Tuple_0@[1]),
        agrees::<C>(ty->Tuple_0@[2]),
        agrees::<D>(ty->Tuple_0@[3]),
    ensures
        agrees::<(A, B, C, D)>(ty),
{
    let elems = ty->Tuple_0@;
    assert forall|v: Value, p: Seq<SegmentView>| #[trigger] first_error(type_errors(ty, v, p))
        == <(A, B, C, D) as FromValue>::conversion_error(v, p) by {
        if let Value::Sequence(items) = v {
            if items@.len() == 4 {
                lemma_tuple_first(ty, items@, p, 1);
                lemma_tuple_first(ty, items@, p, 2);
                lemma_tuple_first(ty, items@, p, 3);
                lemma_tuple_first(ty, items@, p, 4);
            }
        }
    }
}

/// Unknown keys in the file are ignored: inserting an entry whose key no field reads changes
/// none of the check's errors.
pub proof fn law_check_ignores_unknown_keys(fields: Seq<FieldPlan>, entries: Seq<(String, Value)>, key: String, value: Value)
    requires
        forall|k: int| 0 <= k < fields.len() ==> #[trigger] fields[k].key@ != key@,
    ensures
        fields_errors(fields, inserted(entries, key, value), fields.len())
            == fields_errors(fields, entries, fields.len()),
{
    lemma_unknown_key_prefix(fields, entries, key, value, fields.len());
}

proof fn lemma_unknown_key_prefix(fields: Seq<FieldPlan>, entries: Seq<(String, Value)>, key: String, value: Value, n: nat)
    requires
        forall|k: int| 0 <= k < fields.len() ==> #[trigger] fields[k].key@ != key@,
        n <= fields.len(),
    ensures
        fields_errors(fields, inserted(entries, key, value), n) == fields_errors(fields, entries, n),
    decreases n,
{
    if n > 0 {
        lemma_unknown_key_prefix(fields, entries, key, value, (n - 1) as nat);
        let f = fields[n - 1];
        law_lookup_ignores_other_keys(entries, key, value, f.key@);
        reveal(field_errors);
    }
}

} // verus!
