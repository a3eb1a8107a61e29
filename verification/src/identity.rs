//! Identities and storage addresses, each a 32-byte token held as four
//! 64-bit words in little-endian order.

use vstd::prelude::*;

verus! {

/// A public identity token (a participant or the event organizer): 32 bytes,
/// held as four little-endian 64-bit words.
#[derive(Clone, Copy, Debug, PartialEq, Eq, Structural)]
pub struct Identity {
    pub w0: u64,
    pub w1: u64,
    pub w2: u64,
    pub w3: u64,
}

/// A derived storage address: 32 bytes, held as four little-endian 64-bit
/// words. Addresses live in their own space, disjoint from identities by
/// construction of the derivation.
#[derive(Clone, Copy, Debug, PartialEq, Eq, Structural)]
pub struct Address {
    pub w0: u64,
    pub w1: u64,
    pub w2: u64,
    pub w3: u64,
}

impl Identity {
    /// The four words of this identity, in order.
    pub open spec fn words(self) -> (u64, u64, u64, u64) {
        (self.w0, self.w1, self.w2, self.w3)
    }

    /// The all-zero identity, used as the location payload's default.
    pub open spec fn spec_zero() -> Identity {
        Identity { w0: 0, w1: 0, w2: 0, w3: 0 }
    }

    /// Builds the all-zero identity.
    pub fn zero() -> (r: Identity)
        ensures
            r == Identity::spec_zero(),
    {
        Identity { w0: 0, w1: 0, w2: 0, w3: 0 }
    }
}

impl Address {
    /// The four words of this address, in order.
    pub open spec fn words(self) -> (u64, u64, u64, u64) {
        (self.w0, self.w1, self.w2, self.w3)
    }

    /// The address whose words are the given tuple.
    pub open spec fn from_words(w: (u64, u64, u64, u64)) -> Address {
        Address { w0: w.0, w1: w.1, w2: w.2, w3: w.3 }
    }
}

/// The fixed event organizer identity this deployment designates; every
/// check-in must carry its signature.
pub open spec fn spec_event_organizer() -> Identity {
    Identity {
        w0: 0x79d9e8c046bff709,
        w1: 0x22388112290debbf,
        w2: 0xf53d7894b6a808cc,
        w3: 0x7db0f32c908ef4cc,
    }
}

/// Returns the fixed event organizer identity.
pub fn event_organizer() -> (r: Identity)
    ensures
        r == spec_event_organizer(),
{
    Identity {
        w0: 0x79d9e8c046bff709,
        w1: 0x22388112290debbf,
        w2: 0xf53d7894b6a808cc,
        w3: 0x7db0f32c908ef4cc,
    }
}

} // verus!
