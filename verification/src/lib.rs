use vstd::prelude::*;

pub mod auth;
pub mod browser;
pub mod encoding;
pub mod error;
pub mod server;
pub mod snapshot;
pub mod text;
pub mod types;

verus! {
} // verus!
