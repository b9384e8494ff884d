//! Registration, lookup and export of commands.

pub mod context;
pub mod export;
pub mod names;
pub mod path;
pub mod response;
pub mod slash;
pub mod tree;
