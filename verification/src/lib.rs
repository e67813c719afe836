//! Helper operations for the two ubiquitous container types — optional
//! values and fallible results — together with a pattern-extraction
//! facility that turns a variant-matching request over a tagged union
//! into an optional value.
//!
//! The new container methods come in through the traits [`OptionExt`]
//! and [`ResultExt`]; the extraction facility lives in [`extract`].

mod option;
mod result;
pub mod extract;

pub use option::OptionExt;
pub use result::ResultExt;
