//! The templating engine: tokens, the lexer that finds them, and the two
//! passes that render them.

pub mod creator;
pub mod iterator;
pub mod symbols;
