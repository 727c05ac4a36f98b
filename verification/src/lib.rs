//! Schema-driven validation and merging of nested, typed attribute trees.
//!
//! A caller declares the attributes it recognises (`model`), hands the raw
//! attribute nodes (`ast`) found on some construct to the matcher
//! (`model_checker`), and reads the populated schema back by name
//! (`access`). Two populated instances of one declaration can be combined
//! (`merger`). Everything that would be shown to a user is appended to a
//! `Diagnostics` log (`diagnostic`); nothing here prints or aborts. What
//! holds of matching and merging on every input is proved in `laws`.

pub mod access;
pub mod ast;
pub mod diagnostic;
pub mod laws;
pub mod merger;
pub mod model;
pub mod model_checker;
