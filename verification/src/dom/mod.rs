//! The document tree and the commands on it.

pub mod command;
pub mod impact;
pub mod laws;
pub mod names;
pub mod node;
pub mod order;
pub mod read;
pub mod scripts;
pub mod tokens;
pub mod tree;
