//! Back end of the derive: the source text of the `FromValue` impl and of the loading methods
//! for a [`StructPlan`], in token-stream form (tokens separated by spaces).
use vstd::prelude::*;
use vstd::string::StringExecFns;
use crate::derive::plan::{FieldPlan, SourcePlan, StructPlan};
use crate::derive::syntax::option_inner;
use crate::text::push_char;

verus! {

/// How a char is written inside a string literal.
pub open spec fn escape_char(c: char) -> Seq<char> {
    let u = c as u32;
    if u == 0x22 {
        "\\\""@
    } else if u == 0x5c {
        "\\\\"@
    } else if u == 0x0a {
        "\\n"@
    } else if u == 0x0d {
        "\\r"@
    } else if u == 0x09 {
        "\\t"@
    } else {
        seq![c]
    }
}

/// `s` with every char escaped for a string literal.
pub open spec fn escaped(s: Seq<char>) -> Seq<char>
    decreases s.len(),
{
    if s.len() == 0 { Seq::empty() } else { escaped(s.drop_last()) + escape_char(s.last()) }
}

/// The string literal whose value is `s`.
pub open spec fn string_literal(s: Seq<char>) -> Seq<char> {
    "\""@ + escaped(s) + "\""@
}

/// Appends the string literal whose value is `s`.
fn push_literal(out: &mut String, s: &str)
    ensures
        final(out)@ == old(out)@ + string_literal(s@),
{
    let ghost start = out@;
    out.append("\"");
    let ghost chars = s@;
    for c in it: s.chars()
        invariant
            chars == s@,
            it.seq() == chars,
            out@ == start + "\""@ + escaped(chars.take(it.index() as int)),
    {
        let u = c as u32;
        if u == 0x22 {
            out.append("\\\"");
        } else if u == 0x5c {
            out.append("\\\\");
        } else if u == 0x0a {
            out.append("\\n");
        } else if u == 0x0d {
            out.append("\\r");
        } else if u == 0x09 {
            out.append("\\t");
        } else {
            push_char(out, c);
        }
        proof {
            let k = it.index() as int;
            assert(chars.take(k + 1).drop_last() =~= chars.take(k));
            assert(out@ =~= start + "\""@ + escaped(chars.take(k + 1)));
        }
    }
    assert(chars.take(chars.len() as int) =~= chars);
    out.append("\"");
}

/// The conversion of the present value `__cfgy_field` as `ty`, with the key `lit` pushed onto
/// the path, propagating its error.
pub open spec fn convert_text(lit: Seq<char>, ty: Seq<char>) -> Seq<char> {
    "__cfgy_path . with_key ("@ + lit + " , | __cfgy_path | < "@ + ty
        + " as :: cfgy :: FromValue > :: from_value (__cfgy_field , __cfgy_path)) ?"@
}

/// The match arms for a present key: `null` is `None` for an `Option` field, and any other
/// value converts as the field's (inner) type.
pub open spec fn present_text(f: FieldPlan) -> Seq<char> {
    let lit = string_literal(f.key@);
    match option_inner(f.ty) {
        None => ":: core :: option :: Option :: Some (__cfgy_field) => "@ + convert_text(lit, f.ty.text@) + " ,"@,
        Some(inner) => ":: core :: option :: Option :: Some (:: cfgy :: Value :: Null) => :: core :: option :: Option :: None , "@
            + ":: core :: option :: Option :: Some (__cfgy_field) => :: core :: option :: Option :: Some ("@
            + convert_text(lit, inner.text@) + ") ,"@,
    }
}

/// The value for an absent key: the default if there is one, else a missing-key error for a
/// required field, else `None`.
pub open spec fn absent_text(f: FieldPlan) -> Seq<char> {
    match f.default {
        Some(d) => "{ "@ + d@ + " }"@,
        None => if option_inner(f.ty) is None {
            "return :: core :: result :: Result :: Err (__cfgy_path . with_key ("@ + string_literal(f.key@)
                + " , | __cfgy_path | :: cfgy :: ConfigError :: missing (__cfgy_path)))"@
        } else {
            ":: core :: option :: Option :: None"@
        },
    }
}

/// `ident: <lookup>,` for one field.
pub open spec fn field_init_text(f: FieldPlan) -> Seq<char> {
    f.ident@ + " : match __cfgy_map . get ("@ + string_literal(f.key@) + ") { "@ + present_text(f)
        + " :: core :: option :: Option :: None => "@ + absent_text(f) + " , } ,"@
}

/// A field with a default reads, when its key is absent, exactly its default expression, in a
/// block of its own, whatever the field's type (an `Option` field included): the generated match
/// ends with the arm `None => { <default> }`.
pub proof fn law_absent_key_takes_the_default(f: FieldPlan)
    requires
        f.default is Some,
    ensures
        exists|head: Seq<char>| field_init_text(f)
            == head + " :: core :: option :: Option :: None => "@ + "{ "@ + f.default->0@ + " }"@ + " , } ,"@,
{
    let head = f.ident@ + " : match __cfgy_map . get ("@ + string_literal(f.key@) + ") { "@ + present_text(f);
    assert(field_init_text(f)
        =~= head + " :: core :: option :: Option :: None => "@ + "{ "@ + f.default->0@ + " }"@ + " , } ,"@);
}

/// Appends the conversion text of `convert_text`.
fn push_convert(out: &mut String, key: &str, ty: &str)
    ensures
        final(out)@ == old(out)@ + convert_text(string_literal(key@), ty@),
{
    out.append("__cfgy_path . with_key (");
    push_literal(out, key);
    out.append(" , | __cfgy_path | < ");
    out.append(ty);
    out.append(" as :: cfgy :: FromValue > :: from_value (__cfgy_field , __cfgy_path)) ?");
}

/// `ident: <lookup>,` for one field: the absent / optional / default / required rules.
pub fn field_init(f: &FieldPlan) -> (r: String)
    ensures
        r@ == field_init_text(*f),
{
    let mut out = f.ident.clone();
    out.append(" : match __cfgy_map . get (");
    push_literal(&mut out, f.key.as_str());
    out.append(") { ");
    let ghost head = out@;
    match f.optional() {
        None => {
            out.append(":: core :: option :: Option :: Some (__cfgy_field) => ");
            push_convert(&mut out, f.key.as_str(), f.ty.text.as_str());
            out.append(" ,");
        },
        Some(inner) => {
            out.append(":: core :: option :: Option :: Some (:: cfgy :: Value :: Null) => :: core :: option :: Option :: None , ");
            out.append(":: core :: option :: Option :: Some (__cfgy_field) => :: core :: option :: Option :: Some (");
            push_convert(&mut out, f.key.as_str(), inner.text.as_str());
            out.append(") ,");
        },
    }
    assert(out@ =~= head + present_text(*f));
    let ghost mid = out@;
    out.append(" :: core :: option :: Option :: None => ");
    match &f.default {
        Some(d) => {
            out.append("{ ");
            out.append(d.as_str());
            out.append(" }");
        },
        None => {
            if f.optional().is_none() {
                out.append("return :: core :: result :: Result :: Err (__cfgy_path . with_key (");
                push_literal(&mut out, f.key.as_str());
                out.append(" , | __cfgy_path | :: cfgy :: ConfigError :: missing (__cfgy_path)))");
            } else {
                out.append(":: core :: option :: Option :: None");
            }
        },
    }
    assert(out@ =~= mid + " :: core :: option :: Option :: None => "@ + absent_text(*f));
    out.append(" , } ,");
    out
}

/// The field initialisers of the first `n` fields, each followed by a space.
pub open spec fn fields_text(fields: Seq<FieldPlan>, n: nat) -> Seq<char>
    decreases n,
{
    if n == 0 || n > fields.len() {
        Seq::empty()
    } else {
        fields_text(fields, (n - 1) as nat) + field_init_text(fields[n - 1]) + " "@
    }
}

/// The `FromValue` impl for the struct named `ident` with the field initialisers `fields`:
/// anything but a table is a type error at the current path.
pub open spec fn impl_text(ident: Seq<char>, fields: Seq<char>) -> Seq<char> {
    "# [automatically_derived] impl :: cfgy :: FromValue for "@ + ident
        + " { fn from_value (__cfgy_value : & :: cfgy :: Value , __cfgy_path : & mut :: cfgy :: PathStack ,) "@
        + "-> :: core :: result :: Result < Self , :: cfgy :: ConfigError > { "@
        + "let :: cfgy :: Value :: Table (__cfgy_map) = __cfgy_value else { return :: core :: result :: Result :: Err "@
        + "(:: cfgy :: ConfigError :: type_mismatch (__cfgy_path , \"table\" , __cfgy_value) ,) ; } ; "@
        + ":: core :: result :: Result :: Ok (Self { "@ + fields + "}) } }"@
}

/// The forced format of a source, as an `Option<&str>` expression.
pub open spec fn format_text(format: Option<String>) -> Seq<char> {
    match format {
        Some(f) => ":: core :: option :: Option :: Some ("@ + string_literal(f@) + ")"@,
        None => ":: core :: option :: Option :: None"@,
    }
}

/// The loading methods of the struct named `ident` read from `source`: `load` reads the path
/// relative to the working directory, `load_from` reads a given file, `load_str` parses a string
/// with a given format.
pub open spec fn load_methods_text(ident: Seq<char>, source: SourcePlan) -> Seq<char> {
    " impl "@ + ident + " { pub fn load () -> :: core :: result :: Result < Self , :: cfgy :: ConfigError > "@
        + "{ Self :: load_from ("@ + string_literal(source.path@) + ") } "@
        + "pub fn load_from (path : impl :: core :: convert :: AsRef < :: std :: path :: Path >) "@
        + "-> :: core :: result :: Result < Self , :: cfgy :: ConfigError > { "@
        + "let __cfgy_path = path . as_ref () . to_string_lossy () . into_owned () ; "@
        + "let __cfgy_read = :: std :: fs :: read_to_string (& __cfgy_path) . map_err (| __cfgy_error | __cfgy_error . to_string ()) ; "@
        + ":: cfgy :: load :: load_read :: < Self > (& __cfgy_path , "@ + format_text(source.format) + " , __cfgy_read) } "@
        + "pub fn load_str (source : & str , format : & dyn :: cfgy :: Format) "@
        + "-> :: core :: result :: Result < Self , :: cfgy :: ConfigError > "@
        + "{ :: cfgy :: load :: load_str :: < Self , dyn :: cfgy :: Format > (source , format) } }"@
}

/// `load_from` reads the file its `path` argument names and hands that same path to the loader:
/// its body renders the argument, reads the text at it, and loads that text with that path and
/// the struct's forced format; `load` calls `load_from` with the struct's own path.
pub proof fn law_load_from_reads_its_argument(ident: Seq<char>, source: SourcePlan)
    ensures
        exists|head: Seq<char>, tail: Seq<char>| load_methods_text(ident, source) ==
            head + "{ Self :: load_from ("@ + string_literal(source.path@) + ") } "@ +
            "pub fn load_from (path : impl :: core :: convert :: AsRef < :: std :: path :: Path >) "@ +
            "-> :: core :: result :: Result < Self , :: cfgy :: ConfigError > { "@ +
            "let __cfgy_path = path . as_ref () . to_string_lossy () . into_owned () ; "@ +
            "let __cfgy_read = :: std :: fs :: read_to_string (& __cfgy_path) . map_err (| __cfgy_error | __cfgy_error . to_string ()) ; "@ +
            ":: cfgy :: load :: load_read :: < Self > (& __cfgy_path , "@ + format_text(source.format) +
            " , __cfgy_read) } "@ + tail,
{
    let head = " impl "@ + ident + " { pub fn load () -> :: core :: result :: Result < Self , :: cfgy :: ConfigError > "@;
    let tail = "pub fn load_str (source : & str , format : & dyn :: cfgy :: Format) "@ +
        "-> :: core :: result :: Result < Self , :: cfgy :: ConfigError > "@ +
        "{ :: cfgy :: load :: load_str :: < Self , dyn :: cfgy :: Format > (source , format) } }"@;
    assert(load_methods_text(ident, source) =~=
        head + "{ Self :: load_from ("@ + string_literal(source.path@) + ") } "@ +
        "pub fn load_from (path : impl :: core :: convert :: AsRef < :: std :: path :: Path >) "@ +
        "-> :: core :: result :: Result < Self , :: cfgy :: ConfigError > { "@ +
        "let __cfgy_path = path . as_ref () . to_string_lossy () . into_owned () ; "@ +
        "let __cfgy_read = :: std :: fs :: read_to_string (& __cfgy_path) . map_err (| __cfgy_error | __cfgy_error . to_string ()) ; "@ +
        ":: cfgy :: load :: load_read :: < Self > (& __cfgy_path , "@ + format_text(source.format) +
        " , __cfgy_read) } "@ + tail);
}

/// Everything the derive emits for `plan`: the `FromValue` impl, and the loading methods when
/// the struct names a source.
pub open spec fn expand_text(plan: StructPlan) -> Seq<char> {
    impl_text(plan.ident@, fields_text(plan.fields@, plan.fields@.len()))
        + match plan.source {
            Some(source) => load_methods_text(plan.ident@, source),
            None => Seq::empty(),
        }
}

/// The field initialisers of all of `fields`.
fn fields_init(fields: &Vec<FieldPlan>) -> (r: String)
    ensures
        r@ == fields_text(fields@, fields@.len()),
{
    let mut out = String::new();
    let mut i: usize = 0;
    while i < fields.len()
        invariant
            i <= fields@.len(),
            out@ == fields_text(fields@, i as nat),
        decreases fields@.len() - i,
    {
        let init = field_init(&fields[i]);
        out.append(init.as_str());
        out.append(" ");
        i += 1;
    }
    out
}

/// The `FromValue` impl of the struct named `ident` with the field initialisers `fields`.
fn impl_block(ident: &str, fields: &str) -> (r: String)
    ensures
        r@ == impl_text(ident@, fields@),
{
    let mut out = String::from_str("# [automatically_derived] impl :: cfgy :: FromValue for ");
    out.append(ident);
    out.append(" { fn from_value (__cfgy_value : & :: cfgy :: Value , __cfgy_path : & mut :: cfgy :: PathStack ,) ");
    out.append("-> :: core :: result :: Result < Self , :: cfgy :: ConfigError > { ");
    out.append("let :: cfgy :: Value :: Table (__cfgy_map) = __cfgy_value else { return :: core :: result :: Result :: Err ");
    out.append("(:: cfgy :: ConfigError :: type_mismatch (__cfgy_path , \"table\" , __cfgy_value) ,) ; } ; ");
    out.append(":: core :: result :: Result :: Ok (Self { ");
    out.append(fields);
    out.append("}) } }");
    out
}

/// The loading methods of the struct named `ident` read from `source`.
fn load_methods(ident: &str, source: &SourcePlan) -> (r: String)
    ensures
        r@ == load_methods_text(ident@, *source),
{
    let mut out = String::from_str(" impl ");
    out.append(ident);
    out.append(" { pub fn load () -> :: core :: result :: Result < Self , :: cfgy :: ConfigError > ");
    out.append("{ Self :: load_from (");
    push_literal(&mut out, source.path.as_str());
    out.append(") } ");
    out.append("pub fn load_from (path : impl :: core :: convert :: AsRef < :: std :: path :: Path >) ");
    out.append("-> :: core :: result :: Result < Self , :: cfgy :: ConfigError > { ");
    out.append("let __cfgy_path = path . as_ref () . to_string_lossy () . into_owned () ; ");
    out.append("let __cfgy_read = :: std :: fs :: read_to_string (& __cfgy_path) . map_err (| __cfgy_error | __cfgy_error . to_string ()) ; ");
    out.append(":: cfgy :: load :: load_read :: < Self > (& __cfgy_path , ");
    let ghost before_format = out@;
    match &source.format {
        Some(f) => {
            out.append(":: core :: option :: Option :: Some (");
            push_literal(&mut out, f.as_str());
            out.append(")");
        },
        None => {
            out.append(":: core :: option :: Option :: None");
        },
    }
    assert(out@ =~= before_format + format_text(source.format));
    out.append(" , __cfgy_read) } ");
    out.append("pub fn load_str (source : & str , format : & dyn :: cfgy :: Format) ");
    out.append("-> :: core :: result :: Result < Self , :: cfgy :: ConfigError > ");
    out.append("{ :: cfgy :: load :: load_str :: < Self , dyn :: cfgy :: Format > (source , format) } }");
    out
}

/// Emits the `FromValue` impl for `plan`, plus `load`, `load_from` and `load_str` when it names
/// a source.
pub fn expand(plan: &StructPlan) -> (r: String)
    ensures
        r@ == expand_text(*plan),
{
    let fields = fields_init(&plan.fields);
    let mut out = impl_block(plan.ident.as_str(), fields.as_str());
    match &plan.source {
        Some(source) => {
            let methods = load_methods(plan.ident.as_str(), source);
            out.append(methods.as_str());
        },
        None => {},
    }
    out
}

} // verus!
