//! The parts of a struct's syntax that the derive reads, as plain values.
use vstd::prelude::*;
use crate::text::str_eq;

verus! {

/// A type as written in a field declaration.
pub enum TypeShape {
    /// A parenthesised or invisibly grouped type: `(T)`.
    Paren(Box<TypeShape>),
    /// A tuple type `(A, B, ..)`.
    Tuple(Vec<TypeShape>),
    /// A path type such as `std::collections::HashMap<String, u16>`; `qualified` when it starts
    /// with a `<T as Trait>` self type.
    Path { qualified: bool, segments: Vec<PathSegmentShape> },
    /// Any other type: a reference, array, slice, trait object, function pointer, ...
    Other,
}

/// One segment of a type path: its identifier and its arguments.
pub struct PathSegmentShape {
    pub ident: String,
    pub arguments: ArgumentsShape,
}

/// The arguments of a path segment.
pub enum ArgumentsShape {
    /// No arguments: `Vec`.
    Plain,
    /// `<...>` arguments: `HashMap<String, u16>`.
    AngleBracketed(Vec<GenericArgShape>),
    /// `(...) -> ...` arguments: `Fn(u8) -> u8`.
    Parenthesized,
}

/// A type together with its source text, as the derive's generated code spells it.
pub struct TypedArg {
    pub ty: TypeShape,
    pub text: String,
}

/// One `<...>` argument of a path segment.
pub enum GenericArgShape {
    /// A type argument.
    Type(TypedArg),
    /// A lifetime, const, binding or constraint.
    Other,
}

/// The value of a `#[config(name = value)]` option.
pub enum OptionValue {
    /// No value: `#[config(name)]`.
    Flag,
    /// A string literal, by its value and by its source text.
    Str { value: String, text: String },
    /// A `true` or `false` literal.
    Bool(bool),
    /// Any other expression, by its source text.
    Expr(String),
}

/// One option of a `#[config(...)]` attribute.
pub struct ConfigOption {
    pub name: String,
    pub value: OptionValue,
}

/// A named field: its name as written (`r#` included), its type, and its `config` options.
pub struct FieldShape {
    pub ident: String,
    pub ty: TypedArg,
    pub options: Vec<ConfigOption>,
}

/// The fields of a struct.
pub enum FieldsShape {
    Named(Vec<FieldShape>),
    /// A tuple struct.
    Unnamed,
    /// A unit struct.
    Unit,
}

/// What kind of item the derive is applied to.
pub enum DataShape {
    Struct(FieldsShape),
    Enum,
    Union,
}

/// The item a derive is applied to: its name, whether it has generic parameters, its
/// struct-level `config` options, and its data.
pub struct ItemShape {
    pub ident: String,
    pub has_generics: bool,
    pub options: Vec<ConfigOption>,
    pub data: DataShape,
}

/// The type arguments of `args`, in order, with every other argument left out.
pub open spec fn type_args(args: Seq<GenericArgShape>) -> Seq<TypedArg>
    decreases args.len(),
{
    if args.len() == 0 {
        Seq::empty()
    } else {
        let rest = type_args(args.drop_last());
        match args.last() {
            GenericArgShape::Type(t) => rest.push(t),
            GenericArgShape::Other => rest,
        }
    }
}

/// The `index`th type argument of `segment`, e.g. `V` at index 1 of `HashMap<K, V>`.
pub open spec fn type_arg_spec(segment: PathSegmentShape, index: int) -> Option<TypedArg> {
    match segment.arguments {
        ArgumentsShape::AngleBracketed(args) => {
            let tys = type_args(args@);
            if 0 <= index < tys.len() { Some(tys[index]) } else { None }
        },
        _ => None,
    }
}

/// The last segment of `ty` when it is a path without a qualified self type.
pub open spec fn last_segment(ty: TypeShape) -> Option<PathSegmentShape> {
    match ty {
        TypeShape::Path { qualified, segments } => if !qualified && segments@.len() > 0 {
            Some(segments@.last())
        } else {
            None
        },
        _ => None,
    }
}

/// The `index`th type argument of the last segment of `ty`.
pub open spec fn element_type(ty: TypeShape, index: int) -> Option<TypedArg> {
    match last_segment(ty) {
        Some(segment) => type_arg_spec(segment, index),
        None => None,
    }
}

proof fn lemma_type_args_smaller(args: Seq<GenericArgShape>, k: int)
    requires
        0 <= k < type_args(args).len(),
    ensures
        exists|j: int| 0 <= j < args.len() && args[j] == GenericArgShape::Type(#[trigger] type_args(args)[k]),
    decreases args.len(),
{
    let rest = type_args(args.drop_last());
    if k < rest.len() {
        lemma_type_args_smaller(args.drop_last(), k);
        let j = choose|j: int| 0 <= j < args.drop_last().len()
            && args.drop_last()[j] == GenericArgShape::Type(#[trigger] type_args(args.drop_last())[k]);
    } else {
    }
}

/// A type argument of a type is part of it.
pub proof fn lemma_element_type_smaller(ty: TypeShape, index: int)
    requires
        element_type(ty, index) is Some,
    ensures
        decreases_to!(ty => element_type(ty, index)->0.ty),
{
    let segments = ty->segments;
    let segment = segments@.last();
    let args = segment.arguments->AngleBracketed_0;
    lemma_type_args_smaller(args@, index);
    let j = choose|j: int| 0 <= j < args@.len()
        && args@[j] == GenericArgShape::Type(#[trigger] type_args(args@)[index]);
    assert(decreases_to!(args@[j]->Type_0 => args@[j]->Type_0.ty));
}

/// The `index`th type argument of `segment`, e.g. `V` at index 1 of `HashMap<K, V>`.
pub fn type_arg(segment: &PathSegmentShape, index: usize) -> (r: Option<&TypedArg>)
    ensures
        match r {
            Some(t) => type_arg_spec(*segment, index as int) == Some(*t),
            None => type_arg_spec(*segment, index as int) is None,
        },
{
    let args = match &segment.arguments {
        ArgumentsShape::AngleBracketed(args) => args,
        _ => return None,
    };
    let mut seen: usize = 0;
    let mut i: usize = 0;
    while i < args.len()
        invariant
            segment.arguments == ArgumentsShape::AngleBracketed(*args),
            i <= args@.len(),
            seen == type_args(args@.take(i as int)).len(),
            seen <= index,
        decreases args@.len() - i,
    {
        assert(args@.take(i as int + 1).drop_last() =~= args@.take(i as int));
        match &args[i] {
            GenericArgShape::Type(t) => {
                if seen == index {
                    proof {
                        lemma_type_args_prefix(args@, i as int + 1);
                        assert(type_args(args@).take(index as int + 1)[index as int] == *t);
                    }
                    return Some(t);
                }
                seen += 1;
            },
            GenericArgShape::Other => {},
        }
        i += 1;
    }
    assert(args@.take(i as int) =~= args@);
    None
}

proof fn lemma_type_args_prefix(args: Seq<GenericArgShape>, n: int)
    requires
        0 <= n <= args.len(),
    ensures
        type_args(args.take(n)).len() <= type_args(args).len(),
        type_args(args.take(n)) == type_args(args).take(type_args(args.take(n)).len() as int),
    decreases args.len(),
{
    if n == args.len() {
        assert(args.take(n) =~= args);
        assert(type_args(args).take(type_args(args).len() as int) =~= type_args(args));
    } else {
        lemma_type_args_prefix(args.drop_last(), n);
        assert(args.drop_last().take(n) =~= args.take(n));
        let short = type_args(args.take(n));
        let rest = type_args(args.drop_last());
        assert(rest.take(short.len() as int) =~= type_args(args).take(short.len() as int));
    }
}

/// The inner type of an `Option<inner>` type, recognised by its last path segment.
pub open spec fn option_inner(ty: TypedArg) -> Option<TypedArg> {
    match last_segment(ty.ty) {
        Some(segment) => if segment.ident@ == "Option"@ { type_arg_spec(segment, 0) } else { None },
        None => None,
    }
}

/// The inner type of `ty` when it is written `Option<inner>`.
pub fn option_type(ty: &TypedArg) -> (r: Option<&TypedArg>)
    ensures
        match r {
            Some(t) => option_inner(*ty) == Some(*t),
            None => option_inner(*ty) is None,
        },
{
    match &ty.ty {
        TypeShape::Path { qualified, segments } => {
            if *qualified || segments.len() == 0 {
                return None;
            }
            let segment = &segments[segments.len() - 1];
            if str_eq(segment.ident.as_str(), "Option") {
                type_arg(segment, 0)
            } else {
                None
            }
        },
        _ => None,
    }
}

} // verus!
