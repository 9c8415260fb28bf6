//! The `FromConfig` derive: the struct's syntax as plain values, the plan built from it, the
//! compile-time check of the config file, and the text of the generated impls.
pub mod syntax;
pub mod plan;
pub mod check;
pub mod codegen;


