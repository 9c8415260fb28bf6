//! The TOML, JSON and YAML adapters, and the choice of format for a file.
use vstd::prelude::*;
use vstd::string::StringExecFns;
use crate::format::{Format, ParseError};
use crate::value::Value;
use crate::text::{owned, str_eq};

pub mod json_format;
pub mod toml_format;
pub mod yaml_format;

pub use self::json_format::Json;
pub use self::toml_format::Toml;
pub use self::yaml_format::Yaml;

verus! {

/// No format could be chosen for a file.
#[derive(Debug, Clone, PartialEq, Eq)]
pub struct SelectError {
    pub message: String,
}

impl SelectError {
    /// The message, as `Display` would print it.
    pub fn to_string(&self) -> (s: String)
        ensures
            s@ == self.message@,
    {
        self.message.clone()
    }
}

/// Whether `c` has the Unicode `White_Space` property, as `char::is_whitespace` decides.
pub open spec fn is_white_space(c: char) -> bool {
    let u = c as u32;
    ||| 0x09 <= u <= 0x0D
    ||| u == 0x20
    ||| u == 0x85
    ||| u == 0xA0
    ||| u == 0x1680
    ||| 0x2000 <= u <= 0x200A
    ||| u == 0x2028
    ||| u == 0x2029
    ||| u == 0x202F
    ||| u == 0x205F
    ||| u == 0x3000
}

/// Whether `c` has the Unicode `White_Space` property.
pub fn is_whitespace(c: char) -> (r: bool)
    ensures
        r == is_white_space(c),
{
    let u = c as u32;
    (0x09 <= u && u <= 0x0D) || u == 0x20 || u == 0x85 || u == 0xA0 || u == 0x1680
        || (0x2000 <= u && u <= 0x200A) || u == 0x2028 || u == 0x2029 || u == 0x202F || u == 0x205F
        || u == 0x3000
}

/// `s` with its leading white space removed, as `str::trim_start` gives it.
pub open spec fn trim_start(s: Seq<char>) -> Seq<char>
    decreases s.len(),
{
    if s.len() > 0 && is_white_space(s[0]) { trim_start(s.drop_first()) } else { s }
}

/// The feature that a format name or extension selects.
pub open spec fn by_name_spec(name: Seq<char>) -> Option<Seq<char>> {
    if name == "toml"@ {
        Some("toml"@)
    } else if name == "json"@ {
        Some("json"@)
    } else if name == "yaml"@ || name == "yml"@ {
        Some("yaml"@)
    } else {
        None
    }
}

/// The format chosen for a file: the explicit name if given, else the extension if the path has
/// one, else a sniff of the content (a leading `{` is JSON, a leading `---` is YAML).
pub open spec fn choose_feature(
    explicit: Option<Seq<char>>,
    extension: Option<Seq<char>>,
    source: Seq<char>,
) -> Result<Seq<char>, Seq<char>> {
    match explicit {
        Some(name) => match by_name_spec(name) {
            Some(f) => Ok(f),
            None => Err("unknown format `"@ + name + "`, expected toml, json, or yaml"@),
        },
        None => match extension {
            Some(ext) => match by_name_spec(ext) {
                Some(f) => Ok(f),
                None => Err("unknown extension `."@ + ext + "`, expected .toml, .json, .yaml, or .yml"@),
            },
            None => {
                let t = trim_start(source);
                if t.len() >= 1 && t[0] == '{' {
                    Ok("json"@)
                } else if t.len() >= 3 && t[0] == '-' && t[1] == '-' && t[2] == '-' {
                    Ok("yaml"@)
                } else {
                    Err("no file extension and the content does not look like JSON or YAML"@)
                }
            },
        },
    }
}

/// The extension of the file that `path` names, as `std::path::Path::extension` takes it: the
/// part of the file name after its last `.`, when the name has one that is not its first char.
pub uninterp spec fn path_extension(path: Seq<char>) -> Option<Seq<char>>;

/// `std::path::Path::extension` on `path`, as text.
#[verifier::external_body]
fn extension_of(path: &str) -> (ext: Option<String>)
    ensures
        match ext {
            Some(e) => path_extension(path@) == Some(e@),
            None => path_extension(path@) is None,
        },
{
    std::path::Path::new(path).extension().map(|e| e.to_string_lossy().into_owned())
}

/// The view of an optional `&str`.
pub open spec fn opt_view(s: Option<&str>) -> Option<Seq<char>> {
    match s {
        Some(x) => Some(x@),
        None => None,
    }
}

/// The feature that a format name or extension selects: `toml`, `json`, or `yaml` (also for
/// `yml`).
pub fn by_name(name: &str) -> (r: Option<&'static str>)
    ensures
        opt_view(r) == by_name_spec(name@),
{
    if str_eq(name, "toml") {
        Some("toml")
    } else if str_eq(name, "json") {
        Some("json")
    } else if str_eq(name, "yaml") || str_eq(name, "yml") {
        Some("yaml")
    } else {
        None
    }
}

/// The selection error with `message`.
pub fn error(message: String) -> (e: SelectError)
    ensures
        e.message == message,
{
    SelectError { message }
}

/// The first up-to-three chars of `source` after its leading white space.
fn sniff_head(source: &str) -> (head: Vec<char>)
    ensures
        head@ == trim_start(source@).take(if trim_start(source@).len() < 3 { trim_start(source@).len() as int } else { 3 }),
{
    let ghost s = source@;
    let ghost mut skipped: int = 0;
    let mut head: Vec<char> = Vec::new();
    assert(s.skip(0) =~= s);
    for c in it: source.chars()
        invariant
            s == source@,
            it.seq() == s,
            0 <= skipped <= it.index(),
            head@.len() <= 3,
            trim_start(s) == trim_start(s.skip(skipped)),
            head@.len() == 0 ==> skipped == it.index(),
            head@.len() > 0 ==> {
                &&& skipped < s.len()
                &&& !is_white_space(s[skipped])
                &&& head@ == s.subrange(skipped, skipped + head@.len())
                &&& skipped + head@.len() <= it.index()
                &&& (head@.len() < 3 ==> skipped + head@.len() == it.index())
            },
    {
        if head.len() == 0 && is_whitespace(c) {
            proof {
                lemma_trim_start_skip(s, skipped);
                skipped = skipped + 1;
            }
        } else if head.len() < 3 {
            head.push(c);
        }
    }
    proof {
        if head@.len() > 0 {
            lemma_trim_start_at(s, skipped);
        } else {
            assert(s.skip(skipped) =~= Seq::<char>::empty());
        }
    }
    head
}

proof fn lemma_trim_start_skip(s: Seq<char>, k: int)
    requires
        0 <= k < s.len(),
        is_white_space(s[k]),
    ensures
        trim_start(s.skip(k)) == trim_start(s.skip(k + 1)),
{
    assert(s.skip(k).drop_first() =~= s.skip(k + 1));
}

proof fn lemma_trim_start_at(s: Seq<char>, k: int)
    requires
        0 <= k < s.len(),
        !is_white_space(s[k]),
    ensures
        trim_start(s.skip(k)) == s.skip(k),
{
}

/// The format chosen for a file, given the explicit name and the path's extension.
pub fn choose_feature_name(explicit: Option<&str>, extension: Option<&str>, source: &str) -> (r: Result<&'static str, SelectError>)
    ensures
        match r {
            Ok(f) => choose_feature(opt_view(explicit), opt_view(extension), source@) == Ok::<Seq<char>, Seq<char>>(f@),
            Err(e) => choose_feature(opt_view(explicit), opt_view(extension), source@) == Err::<Seq<char>, Seq<char>>(e.message@),
        },
{
    proof {
        reveal_strlit("`");
    }
    if let Some(name) = explicit {
        return match by_name(name) {
            Some(f) => Ok(f),
            None => {
                let mut m = String::from_str("unknown format `");
                m.append(name);
                m.append("`, expected toml, json, or yaml");
                Err(error(m))
            },
        };
    }
    if let Some(ext) = extension {
        return match by_name(ext) {
            Some(f) => Ok(f),
            None => {
                let mut m = String::from_str("unknown extension `.");
                m.append(ext);
                m.append("`, expected .toml, .json, .yaml, or .yml");
                Err(error(m))
            },
        };
    }
    let head = sniff_head(source);
    if head.len() >= 1 && head[0] == '{' {
        Ok("json")
    } else if head.len() >= 3 && head[0] == '-' && head[1] == '-' && head[2] == '-' {
        Ok("yaml")
    } else {
        Err(error(String::from_str("no file extension and the content does not look like JSON or YAML")))
    }
}

/// Picks the format feature for `path`: the `explicit` name, else the extension, else (only
/// when `path` has no extension) a sniff of the first non-white-space chars of `source`.
pub fn feature_name(explicit: Option<&str>, path: &str, source: &str) -> (r: Result<&'static str, SelectError>)
    ensures
        match r {
            Ok(f) => choose_feature(opt_view(explicit), if explicit is Some { None } else { path_extension(path@) }, source@)
                == Ok::<Seq<char>, Seq<char>>(f@),
            Err(e) => choose_feature(opt_view(explicit), if explicit is Some { None } else { path_extension(path@) }, source@)
                == Err::<Seq<char>, Seq<char>>(e.message@),
        },
{
    if explicit.is_some() {
        return choose_feature_name(explicit, None, source);
    }
    let ext = extension_of(path);
    match ext {
        Some(e) => choose_feature_name(None, Some(e.as_str()), source),
        None => choose_feature_name(None, None, source),
    }
}

/// Whether `r` is what parsing `source` in the format named `name` gives.
pub open spec fn parses_as(name: Seq<char>, source: Seq<char>, r: Result<Value, ParseError>) -> bool {
    if name == "toml"@ {
        toml_format::toml_parses_to(source, r)
    } else if name == "json"@ {
        json_format::json_parses_to(source, r)
    } else if name == "yaml"@ {
        yaml_format::yaml_parses_to(source, r)
    } else {
        false
    }
}

/// The format for a feature name that `feature_name` gives.
fn enabled(feature: &'static str) -> (r: Result<&'static dyn Format, SelectError>)
    ensures
        match r {
            Ok(f) => f.spec_name() == feature@
                && forall|src: Seq<char>, pr: Result<Value, ParseError>| #[trigger] f.parses_to(src, pr) == parses_as(feature@, src, pr),
            Err(e) => feature@ != "toml"@ && feature@ != "json"@ && feature@ != "yaml"@,
        },
{
    if str_eq(feature, "toml") {
        Ok(&Toml)
    } else if str_eq(feature, "json") {
        Ok(&Json)
    } else if str_eq(feature, "yaml") {
        Ok(&Yaml)
    } else {
        let mut m = String::from_str("the ");
        m.append(feature);
        m.append(" format is disabled, enable the `");
        m.append(feature);
        m.append("` cargo feature");
        Err(error(m))
    }
}

/// Picks the format for `path`: the `explicit` name, else the extension, else (only when `path`
/// has no extension) a sniff of the first non-white-space chars of `source`.
///
/// Returns a [`SelectError`] when the name or extension is unknown or the content cannot be
/// sniffed.
pub fn select(explicit: Option<&str>, path: &str, source: &str) -> (r: Result<&'static dyn Format, SelectError>)
    ensures
        match r {
            Ok(f) => choose_feature(opt_view(explicit), if explicit is Some { None } else { path_extension(path@) }, source@)
                == Ok::<Seq<char>, Seq<char>>(f.spec_name())
                && forall|src: Seq<char>, pr: Result<Value, ParseError>| #[trigger] f.parses_to(src, pr) == parses_as(f.spec_name(), src, pr),
            Err(e) => choose_feature(opt_view(explicit), if explicit is Some { None } else { path_extension(path@) }, source@)
                == Err::<Seq<char>, Seq<char>>(e.message@),
        },
{
    let feature = feature_name(explicit, path, source)?;
    proof {
        reveal_strlit("toml");
        reveal_strlit("json");
        reveal_strlit("yaml");
    }
    enabled(feature)
}

/// The explicit format name decides alone: neither the path's extension nor the content is
/// looked at.
pub proof fn law_explicit_name_decides(
    name: Seq<char>,
    ext1: Option<Seq<char>>,
    ext2: Option<Seq<char>>,
    source1: Seq<char>,
    source2: Seq<char>,
)
    ensures
        choose_feature(Some(name), ext1, source1) == choose_feature(Some(name), ext2, source2),
{
}

/// With an extension and no explicit name, the extension decides: the content is never sniffed,
/// and an unknown extension is an error, never a guess.
pub proof fn law_extension_is_never_second_guessed(ext: Seq<char>, source1: Seq<char>, source2: Seq<char>)
    ensures
        choose_feature(None, Some(ext), source1) == choose_feature(None, Some(ext), source2),
        by_name_spec(ext) is None ==> choose_feature(None, Some(ext), source1) is Err,
{
}

} // verus!
