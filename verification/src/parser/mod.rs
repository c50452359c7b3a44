//! The block parser and the grammar of quantities.

pub mod block_parser;
pub mod laws;
pub mod model;
pub mod numeric;
pub mod quantity;
pub mod token_buf;
