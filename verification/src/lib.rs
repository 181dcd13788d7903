//! A small-step interpreter for an untyped lambda calculus: a parser for a
//! simple surface syntax, normal-order beta-reduction with capture-avoiding
//! alpha-renaming, delta-expansion of known free names (Church numerals,
//! Church booleans, user definitions), and encoders/decoders between Rust
//! values and lambda terms.

pub mod chars;
pub mod diagnostics;
pub mod evaluation;
pub mod lowering;
pub mod namefree;
pub mod parsers;
pub mod reducing;
pub mod syntax;

pub use diagnostics::{Diagnostic, Diagnostics, DiagnosticsResult, DiagnosticSeverity, Label, WithDiagnostics};
pub use parsers::{parse_formula, parse_program};
