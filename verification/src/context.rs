//! A ready-made choice of identifier types.

use vstd::prelude::*;

use crate::bytes::{Bytes, ShortBytes};
use crate::types::Context;

verus! {

/// Identifies a validator: twenty bytes, as derived from its public key.
pub type Address = Bytes<20>;

/// Identifies a proposed value.
pub type ValueId = u64;

/// Twenty-byte addresses, numbered heights and values, short extensions and
/// Ed25519 signatures.
pub struct BasicContext {}

impl Context for BasicContext {
    type Address = Bytes<20>;
    type ValueId = u64;
    type Height = u64;
    type Extension = ShortBytes;
    type Signature = Bytes<64>;
}

} // verus!
