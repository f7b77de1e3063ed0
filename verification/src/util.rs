//! Shared helpers: character sequences, numerals, string-keyed tables, colours.

pub mod case;
pub mod hyperstr;
pub mod mth;
pub mod numeral;
pub mod table;
pub mod terminal;
pub mod text;
