//! What the terminal can show.

pub mod unicode;
