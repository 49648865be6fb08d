//! Bundle-time rewriting of ECMAScript modules.
//!
//! Constructs such as `import.meta` are located by addresses into a parsed
//! tree (`ast`). Each construct turns into a list of deferred mutations
//! (`meta`, `code_gen`), and all of them run in one pass that replaces
//! expressions at their addresses and hoists declarations to the top of the
//! program. Synthetic names come from `magic_identifier`; constructs that
//! cannot be analysed are reported under the codes of `errors`.
pub mod ast;
pub mod code_gen;
pub mod errors;
pub mod magic_identifier;
pub mod meta;
