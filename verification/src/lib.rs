//! Verified decision core of a Byzantine fault tolerant consensus engine.
#![allow(unused_imports)]

pub mod bytes;
pub mod context;
pub mod discovery;
pub mod engine;
pub mod first_seen;
pub mod ident;
pub mod network;
pub mod signing;
pub mod text;
pub mod types;
pub mod value_laws;
pub mod votekeeper;

use vstd::prelude::*;

verus! {

}
