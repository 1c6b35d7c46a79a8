//! Call-interception and safety checks layered over a symbolic execution engine:
//! demangled-name parsing, a hook registry keyed by template-erased signatures,
//! the plans that the semantic handlers carry out, and the per-path checkers.
pub mod checkers;
pub mod demangle;
pub mod exec;
pub mod hooks;
pub mod names;
pub mod text;
pub mod types;
pub mod utils;
