//! Generation of error-set types from a small declarative error language.
//!
//! The crate turns annotated error declarations into Rust source text: a
//! tagged-union error type per annotated function, wrapper and context
//! structs per variant, conversion impls, and dispatch plumbing that lets a
//! caller intercept exactly the variants it declares as handled.
//!
//! The pipeline is `token` (lexing) -> `parse` (the mini-grammar) ->
//! `resolve` (first-wins dedup, handled/pass-through partition) -> `emit`
//! and `attach` (source text out). `errorset` is the simpler facility over
//! an already-shaped return type. `runtime`, `render` and `dispatch` are
//! what generated code relies on at run time; `laws` proves the
//! resolution's guarantees.

use vstd::prelude::*;

pub mod ast;
pub mod attach;
pub mod dispatch;
pub mod emit;
pub mod errorset;
pub mod item;
pub mod laws;
pub mod parse;
pub mod render;
pub mod resolve;
pub mod runtime;
pub mod text;
pub mod token;

pub use attach::smarterr;
pub use attach::smarterr_fledged;
pub use attach::smarterr_mod;
pub use errorset::errorset;
pub use render::ctx_text;
pub use render::variant_text;
pub use runtime::IntoError;
pub use runtime::RawError;
pub use runtime::Throwable;

verus! {

} // verus!
