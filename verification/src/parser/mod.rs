//! Command parser for cue-shell.
//!
//! ```text
//! Raw input (String)
//!   → Tokenizer  → Vec<Spanned>
//!   → Parser     → Ast (unresolved)
//!   → Resolver   → validated, ready for execution
//! ```

pub mod ast;
pub mod error;
pub mod grammar;
pub mod parse;
pub mod resolved;
pub mod resolver;
pub mod token;
pub mod tokenizer;
