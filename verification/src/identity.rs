//! The device's long-term identity: the Ed25519 secret seed is kept on the
//! device, read back on every start and drawn afresh only when none is stored.
use vstd::prelude::*;
use crate::encoding::copy_into_array32;
use crate::primitives::fresh_seed;

verus! {

/// The identity seed to use, and whether it is new (and so has to be stored).
#[derive(Debug, Clone, Copy)]
pub struct IdentitySeed {
    pub seed: [u8; 32],
    pub is_new: bool,
}

/// The seed from what storage holds: the stored 32 bytes as they are, or,
/// where nothing is stored, 32 fresh random bytes marked new.
pub fn identity_seed(stored: Option<&[u8]>) -> (identity: IdentitySeed)
    requires
        stored matches Some(bytes) ==> bytes@.len() == 32,
    ensures
        match stored {
            Some(bytes) => identity.seed@ == bytes@ && !identity.is_new,
            None => identity.is_new,
        },
{
    match stored {
        Some(bytes) => IdentitySeed { seed: copy_into_array32(bytes), is_new: false },
        None => IdentitySeed { seed: fresh_seed(), is_new: true },
    }
}

} // verus!
