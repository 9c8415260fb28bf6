# cfgy

Typed configuration loading for Rust, verified with Verus.

A config file (TOML, JSON or YAML) is parsed into a format-agnostic value tree, and the tree is
converted into a typed struct by strict rules: integers are range-checked, nothing is coerced
across kinds, absent keys and `null` follow the field's type, and every error names the full
key path (`replicas[1].port`). A `FromConfig` derive builds a plan from the struct's syntax,
type-checks the config file against it at compile time, and generates the `FromValue` impl and
the loading methods.

## Layout

- `src/` — the verified library.
  - `value.rs`, `path.rs`, `error.rs`, `text.rs`: the value tree, key paths, errors and their
    messages.
  - `from_value.rs`: the conversions into Rust types.
  - `format.rs`, `formats/`: the format contract, parse-error positions, format selection, and
    the TOML (`toml`), JSON (`serde_json`) and YAML (`saphyr`) adapters.
  - `load.rs`: reading struct fields and loading text or files into a typed struct.
  - `derive/`: the derive's model of a struct's syntax, its plan, the compile-time check and the
    text of the generated code.
- `app/` — the derive around the library: `syn` in, tokens and spanned errors out, and the file
  read of the compile-time check.
- `tests/` — the library's tests.
