//! A system-information display library: a sectioned configuration language,
//! a placeholder templating engine, and the small collaborators around them.

pub mod args;
pub mod builder;
pub mod config;
pub mod data;
pub mod error;
pub mod fetch;
pub mod image;
pub mod layout;
pub mod modules;
pub mod platform;
pub mod random;
pub mod util;
pub mod variable;
