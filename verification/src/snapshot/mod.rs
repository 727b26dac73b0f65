pub mod compact;
pub mod diff;
pub mod tree;
