//! Everything that can go wrong between a config file and a typed struct, and how it reads.
use vstd::prelude::*;
use vstd::string::StringExecFns;
use crate::path::{render_path, PathStack};
use crate::text::{decimal, push_decimal, push_signed_decimal, signed_decimal, str_eq};
use crate::value::{kind_name, Value};

verus! {

/// Everything that can go wrong between a config file on disk and a typed struct.
#[derive(Debug)]
#[non_exhaustive]
pub enum ConfigError {
    /// The file could not be read; `message` is the operating system's account of why.
    Io { path: String, message: String },
    /// No format could be chosen for the file.
    UnknownFormat { path: String, message: String },
    /// The source text is not well-formed in its format.
    Parse { format: &'static str, message: String, line_col: Option<(usize, usize)> },
    /// A required key is absent.
    Missing { path: String },
    /// A value has the wrong type.
    Type { path: String, expected: &'static str, found: &'static str },
    /// An integer does not fit the target type.
    OutOfRange { path: String, value: i64, target: &'static str },
    /// A sequence has the wrong length for a tuple.
    Length { path: String, expected: usize, found: usize },
}

/// A `ConfigError` as the contracts see it: every text field by its chars.
pub enum ErrorView {
    Io { path: Seq<char>, message: Seq<char> },
    UnknownFormat { path: Seq<char>, message: Seq<char> },
    Parse { format: Seq<char>, message: Seq<char>, line_col: Option<(usize, usize)> },
    Missing { path: Seq<char> },
    Type { path: Seq<char>, expected: Seq<char>, found: Seq<char> },
    OutOfRange { path: Seq<char>, value: i64, target: Seq<char> },
    Length { path: Seq<char>, expected: usize, found: usize },
}

impl View for ConfigError {
    type V = ErrorView;

    open spec fn view(&self) -> ErrorView {
        match self {
            ConfigError::Io { path, message } => ErrorView::Io { path: path@, message: message@ },
            ConfigError::UnknownFormat { path, message } => ErrorView::UnknownFormat { path: path@, message: message@ },
            ConfigError::Parse { format, message, line_col } => ErrorView::Parse { format: format@, message: message@, line_col: *line_col },
            ConfigError::Missing { path } => ErrorView::Missing { path: path@ },
            ConfigError::Type { path, expected, found } => ErrorView::Type { path: path@, expected: expected@, found: found@ },
            ConfigError::OutOfRange { path, value, target } => ErrorView::OutOfRange { path: path@, value: *value, target: target@ },
            ConfigError::Length { path, expected, found } => ErrorView::Length { path: path@, expected: *expected, found: *found },
        }
    }
}

/// The name a message gives a path: the path itself, or `<root>` for the empty one.
pub open spec fn at_spec(path: Seq<char>) -> Seq<char> {
    if path.len() == 0 { "<root>"@ } else { path }
}

/// What an error says, as `Display` would print it.
pub open spec fn message(e: ErrorView) -> Seq<char> {
    match e {
        ErrorView::Io { path, message } => "failed to read `"@ + path + "`: "@ + message,
        ErrorView::UnknownFormat { path, message } => "cannot pick a format for `"@ + path + "`: "@ + message,
        ErrorView::Parse { format, message, line_col } => match line_col {
            Some((line, col)) => "invalid "@ + format + " at line "@ + decimal(line as nat) + ", column "@
                + decimal(col as nat) + ": "@ + message,
            None => "invalid "@ + format + ": "@ + message,
        },
        ErrorView::Missing { path } => "missing required key `"@ + at_spec(path) + "`"@,
        ErrorView::Type { path, expected, found } => if found == "null"@ {
            "`"@ + at_spec(path) + "`: expected "@ + expected + ", found null (the key is present but has no value)"@
        } else {
            "`"@ + at_spec(path) + "`: expected "@ + expected + ", found "@ + found
        },
        ErrorView::OutOfRange { path, value, target } => "`"@ + at_spec(path) + "`: "@ + signed_decimal(value as int)
            + " is out of range for "@ + target,
        ErrorView::Length { path, expected, found } => "`"@ + at_spec(path) + "`: expected a sequence of "@
            + decimal(expected as nat) + " items, found "@ + decimal(found as nat),
    }
}

/// The error for a required key that is absent at `path`.
pub open spec fn missing_view(path: Seq<char>) -> ErrorView {
    ErrorView::Missing { path }
}

/// The error for a value of the wrong kind at `path`.
pub open spec fn type_view(path: Seq<char>, expected: Seq<char>, found: Value) -> ErrorView {
    ErrorView::Type { path, expected, found: kind_name(found) }
}

fn at(path: &str) -> (r: &str)
    ensures
        r@ == at_spec(path@),
{
    if path.is_empty() { "<root>" } else { path }
}

impl ConfigError {
    pub fn missing(path: &PathStack) -> (e: Self)
        ensures
            e@ == missing_view(render_path(path@)),
    {
        ConfigError::Missing { path: path.to_string() }
    }

    pub fn type_mismatch(path: &PathStack, expected: &'static str, found: &Value) -> (e: Self)
        ensures
            e@ == type_view(render_path(path@), expected@, *found),
    {
        ConfigError::Type { path: path.to_string(), expected, found: found.kind() }
    }

    pub fn out_of_range(path: &PathStack, value: i64, target: &'static str) -> (e: Self)
        ensures
            e@ == (ErrorView::OutOfRange { path: render_path(path@), value, target: target@ }),
    {
        ConfigError::OutOfRange { path: path.to_string(), value, target }
    }

    pub fn length(path: &PathStack, expected: usize, found: usize) -> (e: Self)
        ensures
            e@ == (ErrorView::Length { path: render_path(path@), expected, found }),
    {
        ConfigError::Length { path: path.to_string(), expected, found }
    }

    /// The message, as `Display` would print it.
    pub fn to_string(&self) -> (s: String)
        ensures
            s@ == message(self@),
    {
        let mut out = String::new();
        proof {
            reveal_strlit("`");
            reveal_strlit("`: ");
        }
        match self {
            ConfigError::Io { path, message } => {
                out.append("failed to read `");
                out.append(path.as_str());
                out.append("`: ");
                out.append(message.as_str());
            },
            ConfigError::UnknownFormat { path, message } => {
                out.append("cannot pick a format for `");
                out.append(path.as_str());
                out.append("`: ");
                out.append(message.as_str());
            },
            ConfigError::Parse { format, message, line_col } => {
                out.append("invalid ");
                out.append(format);
                match line_col {
                    Some((line, col)) => {
                        out.append(" at line ");
                        push_decimal(&mut out, *line as u64);
                        out.append(", column ");
                        push_decimal(&mut out, *col as u64);
                        out.append(": ");
                    },
                    None => {
                        out.append(": ");
                    },
                }
                out.append(message.as_str());
            },
            ConfigError::Missing { path } => {
                out.append("missing required key `");
                out.append(at(path.as_str()));
                out.append("`");
            },
            ConfigError::Type { path, expected, found } => {
                out.append("`");
                out.append(at(path.as_str()));
                out.append("`: expected ");
                out.append(expected);
                if str_eq(found, "null") {
                    out.append(", found null (the key is present but has no value)");
                } else {
                    out.append(", found ");
                    out.append(found);
                }
            },
            ConfigError::OutOfRange { path, value, target } => {
                out.append("`");
                out.append(at(path.as_str()));
                out.append("`: ");
                push_signed_decimal(&mut out, *value);
                out.append(" is out of range for ");
                out.append(target);
            },
            ConfigError::Length { path, expected, found } => {
                out.append("`");
                out.append(at(path.as_str()));
                out.append("`: expected a sequence of ");
                push_decimal(&mut out, *expected as u64);
                out.append(" items, found ");
                push_decimal(&mut out, *found as u64);
            },
        }
        assert(out@ =~= message(self@));
        out
    }
}

} // verus!
