//! Deterministic derivation of a participant's storage address.
//!
//! The address is a collision-resistant hash of the participant's identity,
//! domain-separated by the program's own identity, together with a
//! disambiguation byte (the "bump") chosen so the address does not collide
//! with a valid cryptographic key. The hash itself is the outside crate's
//! work; this module names its result and exposes a contracted entry point.

use core::str::FromStr;
use vstd::prelude::*;

use crate::identity::Address;
use crate::identity::Identity;

verus! {

/// What the outside derivation returns for an identity's four words: the
/// derived address's words and the bump, or nothing in the (statistically
/// improbable) case that no bump yields a valid address.
pub uninterp spec fn derivation_of(user_words: (u64, u64, u64, u64)) -> Option<
    ((u64, u64, u64, u64), u8),
>;

/// The derived address and bump for an identity, as library types.
pub open spec fn derivation(user: Identity) -> Option<(Address, u8)> {
    match derivation_of(user.words()) {
        None => None,
        Some(p) => Some((Address::from_words(p.0), p.1)),
    }
}

/// The derived address alone, where derivation succeeds.
pub open spec fn derived_address(user: Identity) -> Option<Address> {
    match derivation(user) {
        None => None,
        Some(p) => Some(p.0),
    }
}

/// Relies on anchor_lang's `Pubkey::try_find_program_address`: the returned
/// address and bump are a deterministic function of the seed bytes and the
/// program id alone, and `None` comes back only when no bump yields a valid
/// address.
#[verifier::external_body]
fn try_derive_raw(user: &Identity) -> (r: Option<(Address, u8)>)
    ensures
        (match r {
            None => derivation_of(user.words()) is None,
            Some(p) => derivation_of(user.words()) == Some((p.0.words(), p.1)),
        }),
{
    let pid = anchor_lang::prelude::Pubkey::from_str("9gQfxMKfELeAjLmAoriLpkVPSHd7xb36cBfYXDXX27xE").unwrap();
    let seed = [user.w0.to_le_bytes(), user.w1.to_le_bytes(), user.w2.to_le_bytes(), user.w3.to_le_bytes()].concat();
    let (pk, bump) = anchor_lang::prelude::Pubkey::try_find_program_address(&[&seed], &pid)?;
    let b = pk.to_bytes();
    Some((Address {
        w0: u64::from_le_bytes(b[0..8].try_into().unwrap()),
        w1: u64::from_le_bytes(b[8..16].try_into().unwrap()),
        w2: u64::from_le_bytes(b[16..24].try_into().unwrap()),
        w3: u64::from_le_bytes(b[24..32].try_into().unwrap()),
    }, bump))
}

/// Derives the storage address and bump for a participant identity.
///
/// Deterministic: the result is fixed by the identity alone, so deriving
/// twice for the same identity yields the same address and bump.
pub fn derive_user_address(user: &Identity) -> (r: Option<(Address, u8)>)
    ensures
        r == derivation(*user),
{
    let r = try_derive_raw(user);
    proof {
        match r {
            None => {},
            Some(p) => {
                assert(Address::from_words(p.0.words()) == p.0);
            },
        }
    }
    r
}

} // verus!
