//! A verified front end for quantities in a recipe markup language, and the
//! recipe model they end up in.

pub mod error;
pub mod extensions;
pub mod located;
pub mod model;
pub mod parser;
pub mod quantity;
pub mod relation;
pub mod scale;
pub mod span;
pub mod text;
pub mod token;
pub mod totals;
