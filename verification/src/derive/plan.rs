//! Front end of the derive: turns a struct's syntax into a [`StructPlan`], rejecting the shapes
//! and options the derive does not support.
use vstd::prelude::*;
use crate::derive::syntax::{
    option_inner, option_type, ConfigOption, DataShape, FieldShape, FieldsShape, ItemShape, OptionValue, TypedArg,
};
use crate::formats::{by_name, by_name_spec};
use crate::text::{concat3, owned, str_eq, strip_prefix};

verus! {

/// The struct-level `#[config(path, format, check)]` options.
pub struct SourcePlan {
    /// The config file, relative to the crate (for the check) or the working directory (for
    /// `load`).
    pub path: String,
    /// The forced format name, if any.
    pub format: Option<String>,
    /// Whether the file is checked at compile time; defaults to `true`.
    pub check: bool,
}

/// One named field and the config key it maps to.
pub struct FieldPlan {
    /// The field's name as written, raw-identifier prefix included.
    pub ident: String,
    /// The key the field is read from.
    pub key: String,
    /// The field's type.
    pub ty: TypedArg,
    /// The text of the `default` expression, if any.
    pub default: Option<String>,
}

/// Whether an absent key is an error for `field`: it has neither a default nor an `Option` type.
pub open spec fn is_required(field: FieldPlan) -> bool {
    field.default is None && option_inner(field.ty) is None
}

impl FieldPlan {
    /// Whether an absent key is an error: the field has neither a default nor an `Option` type.
    pub fn required(&self) -> (r: bool)
        ensures
            r == is_required(*self),
    {
        self.default.is_none() && option_type(&self.ty).is_none()
    }

    /// `Some(inner)` when the field is `Option<inner>`.
    pub fn optional(&self) -> (r: Option<&TypedArg>)
        ensures
            match r {
                Some(t) => option_inner(self.ty) == Some(*t),
                None => option_inner(self.ty) is None,
            },
    {
        option_type(&self.ty)
    }

    /// The type a present, non-null value is checked against: the `Option`'s inner type for an
    /// optional field, else the field's type.
    pub fn checked_type(&self) -> (t: &TypedArg)
        ensures
            *t == checked_type_spec(*self),
    {
        match option_type(&self.ty) {
            Some(inner) => inner,
            None => &self.ty,
        }
    }
}

/// The type a present, non-null value of `field` is checked against.
pub open spec fn checked_type_spec(field: FieldPlan) -> TypedArg {
    match option_inner(field.ty) {
        Some(inner) => inner,
        None => field.ty,
    }
}

/// Everything codegen and the check need to know about a derived struct.
pub struct StructPlan {
    pub ident: String,
    /// `Some` if and only if `#[config(path = "...")]` is present.
    pub source: Option<SourcePlan>,
    pub fields: Vec<FieldPlan>,
}

impl StructPlan {
    /// The source the compile-time check reads: none without `path` or with `check = false`.
    pub fn checked_source(&self) -> (r: Option<&SourcePlan>)
        ensures
            match r {
                Some(s) => self.source == Some(*s) && s.check,
                None => match self.source {
                    Some(s) => !s.check,
                    None => true,
                },
            },
    {
        match &self.source {
            Some(source) => if source.check { Some(source) } else { None },
            None => None,
        }
    }
}

/// Where in the derive's input an error points.
#[derive(Debug, Clone, Copy, PartialEq, Eq)]
pub enum ErrorSite {
    /// The struct's name.
    Ident,
    /// The struct's generic parameters.
    Generics,
    /// The struct's fields.
    Fields,
    /// The `enum` or `union` keyword.
    Keyword,
    /// The struct-level `config` option with this index.
    StructOption(usize),
    /// The name of the field with this index.
    FieldIdent(usize),
    /// The `config` option (second index) of the field (first index).
    FieldOption(usize, usize),
}

/// Why the derive cannot be applied, and where.
#[derive(Debug)]
pub struct PlanError {
    pub message: String,
    pub site: ErrorSite,
}

/// The errors of a list, each as its message and site.
pub open spec fn error_list(errors: Seq<PlanError>) -> Seq<(Seq<char>, ErrorSite)> {
    errors.map_values(|e: PlanError| (e.message@, e.site))
}

/// The index of the first of the first `n` options named `name`.
pub open spec fn first_index_upto(opts: Seq<ConfigOption>, name: Seq<char>, n: nat) -> Option<int>
    decreases n,
{
    if n == 0 || n > opts.len() {
        None
    } else {
        match first_index_upto(opts, name, (n - 1) as nat) {
            Some(i) => Some(i),
            None => if opts[n - 1].name@ == name { Some(n - 1) } else { None },
        }
    }
}

/// The first index is a match below `n`, and no option below `n` matches when there is none.
pub proof fn lemma_first_index(opts: Seq<ConfigOption>, name: Seq<char>, n: nat)
    requires
        n <= opts.len(),
    ensures
        match first_index_upto(opts, name, n) {
            Some(i) => 0 <= i < n && opts[i].name@ == name
                && forall|j: int| 0 <= j < i ==> #[trigger] opts[j].name@ != name,
            None => forall|j: int| 0 <= j < n ==> #[trigger] opts[j].name@ != name,
        },
    decreases n,
{
    if n > 0 {
        lemma_first_index(opts, name, (n - 1) as nat);
    }
}

/// The index of the first option named `name`.
pub open spec fn first_index(opts: Seq<ConfigOption>, name: Seq<char>) -> Option<int> {
    first_index_upto(opts, name, opts.len())
}

pub open spec fn duplicate_option(name: Seq<char>) -> Seq<char> {
    "duplicate `config` option `"@ + name + "`"@
}

pub open spec fn unknown_option(name: Seq<char>) -> Seq<char> {
    "unknown `config` option `"@ + name + "`"@
}

pub open spec fn expects_string(name: Seq<char>) -> Seq<char> {
    "`"@ + name + "` expects a string literal"@
}

pub open spec fn requires_path(name: Seq<char>) -> Seq<char> {
    "`"@ + name + "` requires `path`"@
}

pub open spec fn field_only(name: Seq<char>) -> Seq<char> {
    "`"@ + name + "` is a field option, not a struct option"@
}

pub open spec fn struct_only(name: Seq<char>) -> Seq<char> {
    "`"@ + name + "` is a struct option, not a field option"@
}

pub open spec fn unknown_format(name: Seq<char>) -> Seq<char> {
    "unknown format `"@ + name + "`, expected toml, json, or yaml"@
}

pub open spec fn duplicate_key(key: Seq<char>) -> Seq<char> {
    "duplicate key `"@ + key + "`"@
}

/// What is wrong with the struct-level option `i`, if anything: `path` and `format` take a
/// string, `check` a bool, none may repeat, `format` must name a known format, `format` and
/// `check` need `path`, and the field options and unknown names are rejected.
pub open spec fn struct_option_error(opts: Seq<ConfigOption>, i: int) -> Option<Seq<char>> {
    let name = opts[i].name@;
    let repeated = first_index_upto(opts, name, i as nat) is Some;
    let has_path = first_index(opts, "path"@) is Some;
    if name == "path"@ {
        if !(opts[i].value is Str) {
            Some(expects_string(name))
        } else if repeated {
            Some(duplicate_option(name))
        } else {
            None
        }
    } else if name == "format"@ {
        match opts[i].value {
            OptionValue::Str { value, .. } => if repeated {
                Some(duplicate_option(name))
            } else if by_name_spec(value@) is None {
                Some(unknown_format(value@))
            } else if !has_path {
                Some(requires_path(name))
            } else {
                None
            },
            _ => Some(expects_string(name)),
        }
    } else if name == "check"@ {
        match opts[i].value {
            OptionValue::Bool(_) => if repeated {
                Some(duplicate_option(name))
            } else if !has_path {
                Some(requires_path(name))
            } else {
                None
            },
            _ => Some("`check` expects `true` or `false`"@),
        }
    } else if name == "rename"@ || name == "default"@ {
        Some(field_only(name))
    } else {
        Some(unknown_option(name))
    }
}

/// What is wrong with the option `i` of a field, if anything: `rename` takes a string,
/// `default` a value, neither may repeat, and the struct options and unknown names are
/// rejected.
pub open spec fn field_option_error(opts: Seq<ConfigOption>, i: int) -> Option<Seq<char>> {
    let name = opts[i].name@;
    let repeated = first_index_upto(opts, name, i as nat) is Some;
    if name == "rename"@ {
        if !(opts[i].value is Str) {
            Some(expects_string(name))
        } else if repeated {
            Some(duplicate_option(name))
        } else {
            None
        }
    } else if name == "default"@ {
        if opts[i].value is Flag {
            Some("`default` expects a value"@)
        } else if repeated {
            Some(duplicate_option(name))
        } else {
            None
        }
    } else if name == "path"@ || name == "format"@ || name == "check"@ {
        Some(struct_only(name))
    } else {
        Some(unknown_option(name))
    }
}

/// The errors of the first `n` struct-level options, in order.
pub open spec fn struct_errors(opts: Seq<ConfigOption>, n: nat) -> Seq<(Seq<char>, ErrorSite)>
    decreases n,
{
    if n == 0 || n > opts.len() {
        Seq::empty()
    } else {
        struct_errors(opts, (n - 1) as nat) + match struct_option_error(opts, n - 1) {
            Some(m) => seq![(m, ErrorSite::StructOption((n - 1) as usize))],
            None => Seq::empty(),
        }
    }
}

/// The errors of the first `n` options of field `k`, in order.
pub open spec fn field_option_errors(k: int, opts: Seq<ConfigOption>, n: nat) -> Seq<(Seq<char>, ErrorSite)>
    decreases n,
{
    if n == 0 || n > opts.len() {
        Seq::empty()
    } else {
        field_option_errors(k, opts, (n - 1) as nat) + match field_option_error(opts, n - 1) {
            Some(m) => seq![(m, ErrorSite::FieldOption(k as usize, (n - 1) as usize))],
            None => Seq::empty(),
        }
    }
}

/// A field name without its raw-identifier prefix: `r#type` reads `type`.
pub open spec fn strip_raw(ident: Seq<char>) -> Seq<char> {
    if ident.len() >= 2 && has_raw_prefix(ident) { ident.skip(2) } else { ident }
}

/// Whether `ident` starts with the raw-identifier prefix.
pub open spec fn has_raw_prefix(ident: Seq<char>) -> bool {
    ident[0] == 'r' && ident[1] == '\x23'
}

/// The key a field is read from: its `rename`, else its name without a raw-identifier prefix.
pub open spec fn field_key(f: FieldShape) -> Seq<char> {
    match first_index(f.options@, "rename"@) {
        Some(i) => match f.options@[i].value {
            OptionValue::Str { value, .. } => value@,
            _ => strip_raw(f.ident@),
        },
        None => strip_raw(f.ident@),
    }
}

/// The source text of a field's `default` expression, if it has one.
pub open spec fn default_text(f: FieldShape) -> Option<Seq<char>> {
    match first_index(f.options@, "default"@) {
        Some(i) => match f.options@[i].value {
            OptionValue::Str { text, .. } => Some(text@),
            OptionValue::Bool(b) => Some(if b { "true"@ } else { "false"@ }),
            OptionValue::Expr(text) => Some(text@),
            OptionValue::Flag => None,
        },
        None => None,
    }
}

/// Whether an earlier field than `k` reads the same key.
pub open spec fn key_taken(fields: Seq<FieldShape>, k: int) -> bool {
    exists|j: int| 0 <= j < k && #[trigger] field_key(fields[j]) == field_key(fields[k])
}

/// The errors of field `k`: its options' errors, then a repeated key.
pub open spec fn field_plan_errors(fields: Seq<FieldShape>, k: int) -> Seq<(Seq<char>, ErrorSite)> {
    field_option_errors(k, fields[k].options@, fields[k].options@.len())
        + if key_taken(fields, k) {
            seq![(duplicate_key(field_key(fields[k])), ErrorSite::FieldIdent(k as usize))]
        } else {
            Seq::empty()
        }
}

/// The errors of the first `n` fields, in order.
pub open spec fn fields_plan_errors(fields: Seq<FieldShape>, n: nat) -> Seq<(Seq<char>, ErrorSite)>
    decreases n,
{
    if n == 0 || n > fields.len() {
        Seq::empty()
    } else {
        fields_plan_errors(fields, (n - 1) as nat) + field_plan_errors(fields, n - 1)
    }
}

/// Every reason the derive cannot be applied to `input`: it must be a struct with named fields
/// and no generic parameters; then every bad struct option, bad field option and repeated key.
pub open spec fn plan_errors(input: ItemShape) -> Seq<(Seq<char>, ErrorSite)> {
    match input.data {
        DataShape::Enum => seq![("`FromConfig` can only be derived for structs, not enums"@, ErrorSite::Keyword)],
        DataShape::Union => seq![("`FromConfig` can only be derived for structs, not unions"@, ErrorSite::Keyword)],
        DataShape::Struct(FieldsShape::Unnamed) => seq![("`FromConfig` cannot be derived for tuple structs"@, ErrorSite::Fields)],
        DataShape::Struct(FieldsShape::Unit) => seq![("`FromConfig` cannot be derived for unit structs"@, ErrorSite::Ident)],
        DataShape::Struct(FieldsShape::Named(fields)) => if input.has_generics {
            seq![("generic structs are not supported yet"@, ErrorSite::Generics)]
        } else {
            struct_errors(input.options@, input.options@.len()) + fields_plan_errors(fields@, fields@.len())
        },
    }
}

/// The text of an optional string.
pub open spec fn opt_text(s: Option<String>) -> Option<Seq<char>> {
    match s {
        Some(x) => Some(x@),
        None => None,
    }
}

/// The source a struct's options name: `path`, with `format` if given and `check` (default
/// `true`), or `None` without `path`.
pub open spec fn source_of(opts: Seq<ConfigOption>) -> Option<(Seq<char>, Option<Seq<char>>, bool)> {
    match first_index(opts, "path"@) {
        Some(i) => match opts[i].value {
            OptionValue::Str { value, .. } => Some((
                value@,
                match first_index(opts, "format"@) {
                    Some(f) => match opts[f].value {
                        OptionValue::Str { value, .. } => Some(value@),
                        _ => None,
                    },
                    None => None,
                },
                match first_index(opts, "check"@) {
                    Some(c) => match opts[c].value {
                        OptionValue::Bool(b) => b,
                        _ => true,
                    },
                    None => true,
                },
            )),
            _ => None,
        },
        None => None,
    }
}

/// The view of a source plan.
pub open spec fn source_view(s: Option<SourcePlan>) -> Option<(Seq<char>, Option<Seq<char>>, bool)> {
    match s {
        Some(p) => Some((p.path@, opt_text(p.format), p.check)),
        None => None,
    }
}

/// Whether `p` is the plan of the field `f`.
pub open spec fn field_plan_of(f: FieldShape, p: FieldPlan) -> bool {
    &&& p.ident@ == f.ident@
    &&& p.key@ == field_key(f)
    &&& p.ty == f.ty
    &&& opt_text(p.default) == default_text(f)
}

/// Whether `p` is the plan of `input`.
pub open spec fn plan_of(input: ItemShape, p: StructPlan) -> bool {
    match input.data {
        DataShape::Struct(FieldsShape::Named(fields)) => {
            &&& p.ident@ == input.ident@
            &&& source_view(p.source) == source_of(input.options@)
            &&& p.fields@.len() == fields@.len()
            &&& forall|k: int| 0 <= k < fields@.len() ==> field_plan_of(fields@[k], #[trigger] p.fields@[k])
        },
        _ => false,
    }
}

/// The index of the first of the first `n` options named `name`.
fn find_option(opts: &Vec<ConfigOption>, name: &str, n: usize) -> (r: Option<usize>)
    requires
        n <= opts@.len(),
    ensures
        match r {
            Some(i) => first_index_upto(opts@, name@, n as nat) == Some(i as int) && i < n
                && opts@[i as int].name@ == name@,
            None => first_index_upto(opts@, name@, n as nat) is None,
        },
{
    proof { lemma_first_index(opts@, name@, n as nat); }
    let mut found: Option<usize> = None;
    let mut i: usize = 0;
    while i < n
        invariant
            n <= opts@.len(),
            i <= n,
            match found {
                Some(k) => first_index_upto(opts@, name@, i as nat) == Some(k as int),
                None => first_index_upto(opts@, name@, i as nat) is None,
            },
        decreases n - i,
    {
        if found.is_none() && str_eq(opts[i].name.as_str(), name) {
            found = Some(i);
        }
        i += 1;
    }
    found
}

/// What is wrong with the struct-level option `i`, if anything.
fn struct_option_message(opts: &Vec<ConfigOption>, i: usize) -> (r: Option<String>)
    requires
        i < opts@.len(),
    ensures
        opt_text(r) == struct_option_error(opts@, i as int),
{
    let name = opts[i].name.as_str();
    let repeated = find_option(opts, name, i).is_some();
    let has_path = find_option(opts, "path", opts.len()).is_some();
    if str_eq(name, "path") {
        match &opts[i].value {
            OptionValue::Str { .. } => if repeated {
                Some(concat3("duplicate `config` option `", name, "`"))
            } else {
                None
            },
            _ => Some(concat3("`", name, "` expects a string literal")),
        }
    } else if str_eq(name, "format") {
        match &opts[i].value {
            OptionValue::Str { value, .. } => if repeated {
                Some(concat3("duplicate `config` option `", name, "`"))
            } else if by_name(value.as_str()).is_none() {
                Some(concat3("unknown format `", value.as_str(), "`, expected toml, json, or yaml"))
            } else if !has_path {
                Some(concat3("`", name, "` requires `path`"))
            } else {
                None
            },
            _ => Some(concat3("`", name, "` expects a string literal")),
        }
    } else if str_eq(name, "check") {
        match &opts[i].value {
            OptionValue::Bool(_) => if repeated {
                Some(concat3("duplicate `config` option `", name, "`"))
            } else if !has_path {
                Some(concat3("`", name, "` requires `path`"))
            } else {
                None
            },
            _ => Some(owned("`check` expects `true` or `false`")),
        }
    } else if str_eq(name, "rename") || str_eq(name, "default") {
        Some(concat3("`", name, "` is a field option, not a struct option"))
    } else {
        Some(concat3("unknown `config` option `", name, "`"))
    }
}

/// What is wrong with the option `i` of a field, if anything.
fn field_option_message(opts: &Vec<ConfigOption>, i: usize) -> (r: Option<String>)
    requires
        i < opts@.len(),
    ensures
        opt_text(r) == field_option_error(opts@, i as int),
{
    let name = opts[i].name.as_str();
    let repeated = find_option(opts, name, i).is_some();
    if str_eq(name, "rename") {
        match &opts[i].value {
            OptionValue::Str { .. } => if repeated {
                Some(concat3("duplicate `config` option `", name, "`"))
            } else {
                None
            },
            _ => Some(concat3("`", name, "` expects a string literal")),
        }
    } else if str_eq(name, "default") {
        match &opts[i].value {
            OptionValue::Flag => Some(owned("`default` expects a value")),
            _ => if repeated {
                Some(concat3("duplicate `config` option `", name, "`"))
            } else {
                None
            },
        }
    } else if str_eq(name, "path") || str_eq(name, "format") || str_eq(name, "check") {
        Some(concat3("`", name, "` is a struct option, not a field option"))
    } else {
        Some(concat3("unknown `config` option `", name, "`"))
    }
}

/// The key the field `f` is read from.
pub fn key_of(f: &FieldShape) -> (k: String)
    ensures
        k@ == field_key(*f),
{
    if let Some(i) = find_option(&f.options, "rename", f.options.len()) {
        if let OptionValue::Str { value, .. } = &f.options[i].value {
            return value.clone();
        }
    }
    proof { reveal_strlit("\x72#"); }
    match strip_prefix(f.ident.as_str(), "\x72#") {
        Some(rest) => {
            assert(rest@ =~= f.ident@.skip(2));
            owned(rest)
        },
        None => {
            assert(strip_raw(f.ident@) == f.ident@) by {
                if f.ident@.len() >= 2 && has_raw_prefix(f.ident@) {
                }
            }
            f.ident.clone()
        },
    }
}

/// The source text of the field's `default` expression, if it has one.
fn default_of(f: &FieldShape) -> (d: Option<String>)
    ensures
        opt_text(d) == default_text(*f),
{
    match find_option(&f.options, "default", f.options.len()) {
        Some(i) => match &f.options[i].value {
            OptionValue::Str { text, .. } => Some(text.clone()),
            OptionValue::Bool(b) => Some(owned(if *b { "true" } else { "false" })),
            OptionValue::Expr(text) => Some(text.clone()),
            OptionValue::Flag => None,
        },
        None => None,
    }
}

/// The source that the struct-level options name.
fn source_from(opts: &Vec<ConfigOption>) -> (s: Option<SourcePlan>)
    ensures
        source_view(s) == source_of(opts@),
{
    let path = match find_option(opts, "path", opts.len()) {
        Some(i) => match &opts[i].value {
            OptionValue::Str { value, .. } => value.clone(),
            _ => return None,
        },
        None => return None,
    };
    let format = match find_option(opts, "format", opts.len()) {
        Some(i) => match &opts[i].value {
            OptionValue::Str { value, .. } => Some(value.clone()),
            _ => None,
        },
        None => None,
    };
    let check = match find_option(opts, "check", opts.len()) {
        Some(i) => match &opts[i].value {
            OptionValue::Bool(b) => *b,
            _ => true,
        },
        None => true,
    };
    Some(SourcePlan { path, format, check })
}

/// A list holding one error.
fn one_error(message: &str, site: ErrorSite) -> (r: Vec<PlanError>)
    ensures
        error_list(r@) == seq![(message@, site)],
{
    let r = vec![PlanError { message: owned(message), site }];
    assert(error_list(r@) =~= seq![(message@, site)]);
    r
}

/// Pushes an error with `message`, if there is one, at `site`.
fn push_plan_error(errors: &mut Vec<PlanError>, message: Option<String>, site: ErrorSite)
    ensures
        error_list(final(errors)@) == error_list(old(errors)@) + match opt_text(message) {
            Some(m) => seq![(m, site)],
            None => Seq::<(Seq<char>, ErrorSite)>::empty(),
        },
{
    let ghost before = errors@;
    match message {
        Some(m) => {
            errors.push(PlanError { message: m, site });
            assert(error_list(errors@) =~= error_list(before) + seq![(m@, site)]);
        },
        None => {
            assert(error_list(errors@) =~= error_list(before) + Seq::<(Seq<char>, ErrorSite)>::empty());
        },
    }
}

/// Whether a field before `k` reads the same key as field `k`.
fn key_repeated(fields: &Vec<FieldShape>, k: usize) -> (r: bool)
    requires
        k < fields@.len(),
    ensures
        r == key_taken(fields@, k as int),
{
    let key = key_of(&fields[k]);
    let mut j: usize = 0;
    while j < k
        invariant
            k < fields@.len(),
            j <= k,
            key@ == field_key(fields@[k as int]),
            forall|i: int| 0 <= i < j ==> #[trigger] field_key(fields@[i]) != field_key(fields@[k as int]),
        decreases k - j,
    {
        let other = key_of(&fields[j]);
        if str_eq(other.as_str(), key.as_str()) {
            return true;
        }
        j += 1;
    }
    false
}

/// Every error of the struct-level options and of the fields.
fn option_errors(opts: &Vec<ConfigOption>, fields: &Vec<FieldShape>) -> (r: Vec<PlanError>)
    ensures
        error_list(r@) == struct_errors(opts@, opts@.len()) + fields_plan_errors(fields@, fields@.len()),
{
    let mut errors: Vec<PlanError> = Vec::new();
    let mut i: usize = 0;
    assert(error_list(errors@) =~= struct_errors(opts@, 0));
    while i < opts.len()
        invariant
            i <= opts@.len(),
            error_list(errors@) == struct_errors(opts@, i as nat),
        decreases opts@.len() - i,
    {
        let m = struct_option_message(opts, i);
        push_plan_error(&mut errors, m, ErrorSite::StructOption(i));
        i += 1;
    }
    let ghost head = error_list(errors@);
    let mut k: usize = 0;
    assert(error_list(errors@) =~= head + fields_plan_errors(fields@, 0));
    while k < fields.len()
        invariant
            k <= fields@.len(),
            head == struct_errors(opts@, opts@.len()),
            error_list(errors@) == head + fields_plan_errors(fields@, k as nat),
        decreases fields@.len() - k,
    {
        let field = &fields[k];
        let ghost start = error_list(errors@);
        let mut i: usize = 0;
        assert(error_list(errors@) =~= start + field_option_errors(k as int, field.options@, 0));
        while i < field.options.len()
            invariant
                k < fields@.len(),
                *field == fields@[k as int],
                i <= field.options@.len(),
                error_list(errors@) == start + field_option_errors(k as int, field.options@, i as nat),
            decreases field.options@.len() - i,
        {
            let m = field_option_message(&field.options, i);
            push_plan_error(&mut errors, m, ErrorSite::FieldOption(k, i));
            proof {
                assert(error_list(errors@) =~= start + field_option_errors(k as int, field.options@, (i + 1) as nat));
            }
            i += 1;
        }
        if key_repeated(fields, k) {
            let key = key_of(field);
            let m = concat3("duplicate key `", key.as_str(), "`");
            push_plan_error(&mut errors, Some(m), ErrorSite::FieldIdent(k));
        } else {
            push_plan_error(&mut errors, None, ErrorSite::FieldIdent(k));
        }
        proof {
            assert(error_list(errors@) =~= head + fields_plan_errors(fields@, (k + 1) as nat));
        }
        k += 1;
    }
    errors
}

/// Builds the plan for `input`, rejecting the shapes and options the derive does not support.
pub fn build(input: ItemShape) -> (r: Result<StructPlan, Vec<PlanError>>)
    ensures
        match r {
            Ok(p) => plan_errors(input).len() == 0 && plan_of(input, p),
            Err(errors) => plan_errors(input).len() > 0 && error_list(errors@) == plan_errors(input),
        },
{
    let ItemShape { ident, has_generics, options, data } = input;
    let fields = match data {
        DataShape::Struct(FieldsShape::Named(fields)) => fields,
        DataShape::Struct(FieldsShape::Unnamed) => {
            return Err(one_error("`FromConfig` cannot be derived for tuple structs", ErrorSite::Fields));
        },
        DataShape::Struct(FieldsShape::Unit) => {
            return Err(one_error("`FromConfig` cannot be derived for unit structs", ErrorSite::Ident));
        },
        DataShape::Enum => {
            return Err(one_error("`FromConfig` can only be derived for structs, not enums", ErrorSite::Keyword));
        },
        DataShape::Union => {
            return Err(one_error("`FromConfig` can only be derived for structs, not unions", ErrorSite::Keyword));
        },
    };
    if has_generics {
        return Err(one_error("generic structs are not supported yet", ErrorSite::Generics));
    }
    let errors = option_errors(&options, &fields);
    if errors.len() > 0 {
        return Err(errors);
    }
    let source = source_from(&options);
    let ghost all = fields@;
    let mut rest = fields;
    let mut plans: Vec<FieldPlan> = Vec::new();
    while rest.len() > 0
        invariant
            plans@.len() + rest@.len() == all.len(),
            rest@ == all.subrange(plans@.len() as int, all.len() as int),
            forall|k: int| 0 <= k < plans@.len() ==> field_plan_of(all[k], #[trigger] plans@[k]),
        decreases rest@.len(),
    {
        let f = rest.remove(0);
        let key = key_of(&f);
        let default = default_of(&f);
        let FieldShape { ident, ty, options } = f;
        let ghost n = plans@.len() as int;
        plans.push(FieldPlan { ident, key, ty, default });
        assert(rest@ =~= all.subrange(n + 1, all.len() as int));
    }
    Ok(StructPlan { ident, source, fields: plans })
}

proof fn lemma_no_struct_errors(opts: Seq<ConfigOption>, n: nat, i: int)
    requires
        n <= opts.len(),
        struct_errors(opts, n).len() == 0,
        0 <= i < n,
    ensures
        struct_option_error(opts, i) is None,
    decreases n,
{
    if i < n - 1 {
        lemma_no_struct_errors(opts, (n - 1) as nat, i);
    }
}

proof fn lemma_no_field_errors(fields: Seq<FieldShape>, n: nat, k: int)
    requires
        n <= fields.len(),
        fields_plan_errors(fields, n).len() == 0,
        0 <= k < n,
    ensures
        !key_taken(fields, k),
    decreases n,
{
    if k < n - 1 {
        lemma_no_field_errors(fields, (n - 1) as nat, k);
    }
}

/// The fields of an accepted struct read distinct keys.
pub proof fn law_accepted_keys_are_distinct(input: ItemShape, p: StructPlan)
    requires
        plan_errors(input).len() == 0,
        plan_of(input, p),
    ensures
        forall|j: int, k: int| 0 <= j < k < p.fields@.len() ==> #[trigger] p.fields@[j].key@ != #[trigger] p.fields@[k].key@,
{
    let fields = input.data->Struct_0->Named_0@;
    let n = input.options@.len();
    assert forall|j: int, k: int| 0 <= j < k < p.fields@.len() implies #[trigger] p.fields@[j].key@ != #[trigger] p.fields@[k].key@ by {
        lemma_no_field_errors(fields, fields.len(), k);
    }
}

/// A field's default is the source text of the value its first `default` option carries: a
/// string literal as written (quotes included), `true` or `false` for a boolean literal, and any
/// other expression as written; only a bare `default` flag gives none. So a field with
/// `default = false` is not required and reads `false` when its key is absent.
pub proof fn law_default_is_the_option_text(input: ItemShape, p: StructPlan, k: int, i: int)
    requires
        plan_of(input, p),
        0 <= k < p.fields@.len(),
        0 <= i < input.data->Struct_0->Named_0@[k].options@.len(),
        input.data->Struct_0->Named_0@[k].options@[i].name@ == "default"@,
        forall|j: int| 0 <= j < i ==> (#[trigger] input.data->Struct_0->Named_0@[k].options@[j]).name@ != "default"@,
    ensures
        match input.data->Struct_0->Named_0@[k].options@[i].value {
            OptionValue::Str { text, .. } => p.fields@[k].default matches Some(d) && d@ == text@,
            OptionValue::Bool(b) => p.fields@[k].default matches Some(d) && d@ == (if b { "true"@ } else { "false"@ }),
            OptionValue::Expr(text) => p.fields@[k].default matches Some(d) && d@ == text@,
            OptionValue::Flag => p.fields@[k].default is None,
        },
        !(input.data->Struct_0->Named_0@[k].options@[i].value is Flag) ==> !is_required(p.fields@[k]),
{
    let f = input.data->Struct_0->Named_0@[k];
    let opts = f.options@;
    lemma_first_index(opts, "default"@, opts.len());
    assert(first_index(opts, "default"@) == Some(i)) by {
        match first_index(opts, "default"@) {
            Some(m) => {
                if m < i {
                    assert(opts[m].name@ != "default"@);
                } else if m > i {
                    assert(opts[i].name@ != "default"@);
                }
            },
            None => {
                assert(opts[i].name@ != "default"@);
            },
        }
    }
    assert(field_plan_of(f, p.fields@[k]));
}

/// A field without a `default` option has no default in its plan.
pub proof fn law_no_default_option_no_default(input: ItemShape, p: StructPlan, k: int)
    requires
        plan_of(input, p),
        0 <= k < p.fields@.len(),
        forall|j: int| 0 <= j < input.data->Struct_0->Named_0@[k].options@.len()
            ==> (#[trigger] input.data->Struct_0->Named_0@[k].options@[j]).name@ != "default"@,
    ensures
        p.fields@[k].default is None,
{
    let f = input.data->Struct_0->Named_0@[k];
    lemma_first_index(f.options@, "default"@, f.options@.len());
    assert(field_plan_of(f, p.fields@[k]));
}

/// An accepted struct's forced format is a known one, even when the file is not checked.
pub proof fn law_accepted_format_is_known(input: ItemShape, p: StructPlan)
    requires
        plan_errors(input).len() == 0,
        plan_of(input, p),
        p.source is Some,
        p.source->0.format is Some,
    ensures
        by_name_spec(p.source->0.format->0@) is Some,
{
    let opts = input.options@;
    reveal_strlit("format");
    reveal_strlit("path");
    assert("format"@.len() == 6 && "path"@.len() == 4);
    lemma_first_index(opts, "format"@, opts.len());
    let i = first_index(opts, "format"@)->0;
    lemma_no_struct_errors(opts, opts.len(), i);
    assert(first_index_upto(opts, "format"@, i as nat) is None) by {
        lemma_first_index(opts, "format"@, i as nat);
        if first_index_upto(opts, "format"@, i as nat) is Some {
            let w = first_index_upto(opts, "format"@, i as nat)->0;
            lemma_first_index(opts, "format"@, opts.len());
        }
    }
}

} // verus!
