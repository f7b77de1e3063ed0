//! What the system says of itself.

pub mod version;
