//! The record state machine: one record per participant, created once at the
//! participant's derived address and updated only under dual authorization.
//!
//! The store itself provides all-or-nothing semantics per operation: every
//! failure leaves the records exactly as they were.

use vstd::prelude::*;
use vstd::pervasive::VecAdditionalExecFns;

use crate::addressing::derivation;
use crate::addressing::derive_user_address;
use crate::addressing::derived_address;
use crate::identity::Address;
use crate::identity::Identity;

verus! {

/// Which payload variant a registry's records carry; chosen when the
/// registry is configured and fixed from then on.
#[derive(Clone, Copy, Debug, PartialEq, Eq, Structural)]
pub enum PayloadKind {
    /// Records hold the participant's last reported location token.
    Location,
    /// Records hold a count of completed check-ins.
    Counter,
}

/// A record's payload: either the last reported location (an opaque
/// identity-shaped token) or a count of completed check-ins.
#[derive(Clone, Copy, Debug, PartialEq, Eq, Structural)]
pub enum Payload {
    Location(Identity),
    Counter(u64),
}

/// The per-participant record: who owns it and its payload. The owner is set
/// at creation and never reassigned; the payload changes only through an
/// authorized check-in.
#[derive(Clone, Copy, Debug, PartialEq, Eq, Structural)]
pub struct UserState {
    pub user: Identity,
    pub payload: Payload,
}

/// The authorization context of a creation request: who asks for the record
/// and whether that identity signed the request.
#[derive(Clone, Copy, Debug, PartialEq, Eq, Structural)]
pub struct Initialize {
    pub user: Identity,
    pub user_signed: bool,
}

/// The authorization context of an update request: the participant, the
/// claimed event organizer, and whether each of them signed the request.
#[derive(Clone, Copy, Debug, PartialEq, Eq, Structural)]
pub struct CheckIn {
    pub user: Identity,
    pub user_signed: bool,
    pub event_organizer: Identity,
    pub event_organizer_signed: bool,
}

/// Everything that can go wrong with a creation or update request. Every
/// failure is terminal and mutates nothing.
#[derive(Clone, Copy, Debug, PartialEq, Eq, Structural)]
pub enum HuntError {
    /// Creation targeted an address that already holds a record.
    AlreadyInitialized,
    /// The creating participant did not sign the request.
    InvalidSigner,
    /// An update targeted a participant with no record.
    RecordNotFound,
    /// A required signature is absent, or the participant is not the
    /// record's owner.
    UnauthorizedSigner,
    /// The second signer is not the configured event organizer.
    InvalidEventAuthority,
    /// A counter increment would exceed the representable range.
    CounterOverflow,
    /// No valid address could be derived for the identity.
    AddressDerivationFailed,
}

/// The payload a fresh record starts with: the zero location or a zero count.
pub open spec fn default_payload(kind: PayloadKind) -> Payload {
    match kind {
        PayloadKind::Location => Payload::Location(Identity::spec_zero()),
        PayloadKind::Counter => Payload::Counter(0),
    }
}

/// Whether a payload belongs to the given variant.
pub open spec fn payload_matches(p: Payload, kind: PayloadKind) -> bool {
    match kind {
        PayloadKind::Location => p is Location,
        PayloadKind::Counter => p is Counter,
    }
}

/// The record after a location check-in: same owner, payload overwritten
/// unconditionally with the supplied location.
pub open spec fn located(s: UserState, location: Identity) -> UserState {
    UserState { user: s.user, payload: Payload::Location(location) }
}

/// The record after a counter check-in: same owner, count raised by exactly
/// one, or an overflow error when the count is already at its maximum.
/// A record holding no counter cannot be counted; a well-formed counter
/// registry never stores one.
pub open spec fn counter_step(s: UserState) -> Result<UserState, HuntError> {
    match s.payload {
        Payload::Counter(n) => if n == u64::MAX {
            Err(HuntError::CounterOverflow)
        } else {
            Ok(UserState { user: s.user, payload: Payload::Counter((n + 1) as u64) })
        },
        Payload::Location(_) => Err(HuntError::CounterOverflow),
    }
}

/// What a creation request does to the record store: authorization is
/// checked first, then the derived slot must be free; on success the new
/// record carries the requesting identity and the default payload.
pub open spec fn spec_initialize(
    m: Map<Address, UserState>,
    kind: PayloadKind,
    ctx: Initialize,
) -> (Map<Address, UserState>, Result<(), HuntError>) {
    if !ctx.user_signed {
        (m, Err(HuntError::InvalidSigner))
    } else {
        match derivation(ctx.user) {
            None => (m, Err(HuntError::AddressDerivationFailed)),
            Some(p) => if m.contains_key(p.0) {
                (m, Err(HuntError::AlreadyInitialized))
            } else {
                (m.insert(p.0, (UserState { user: ctx.user, payload: default_payload(kind) })), Ok(()))
            },
        }
    }
}

/// The shared gate of every check-in: the record must exist at the derived
/// address, both signatures must be present, the participant must own the
/// record, and the second signer must be the configured event organizer.
/// Returns the first failure in that order, or nothing when authorized.
pub open spec fn check_in_gate(
    m: Map<Address, UserState>,
    authority: Identity,
    ctx: CheckIn,
) -> Option<HuntError> {
    match derivation(ctx.user) {
        None => Some(HuntError::AddressDerivationFailed),
        Some(p) => if !m.contains_key(p.0) {
            Some(HuntError::RecordNotFound)
        } else if !ctx.user_signed || !ctx.event_organizer_signed {
            Some(HuntError::UnauthorizedSigner)
        } else if m[p.0].user != ctx.user {
            Some(HuntError::UnauthorizedSigner)
        } else if ctx.event_organizer != authority {
            Some(HuntError::InvalidEventAuthority)
        } else {
            None
        },
    }
}

/// What a location check-in does to the record store: once every
/// authorization check succeeds, the payload is overwritten with exactly
/// the supplied location.
pub open spec fn spec_check_in(
    m: Map<Address, UserState>,
    authority: Identity,
    ctx: CheckIn,
    location: Identity,
) -> (Map<Address, UserState>, Result<(), HuntError>) {
    match derivation(ctx.user) {
        None => (m, Err(HuntError::AddressDerivationFailed)),
        Some(p) => match check_in_gate(m, authority, ctx) {
            Some(e) => (m, Err(e)),
            None => (m.insert(p.0, located(m[p.0], location)), Ok(())),
        },
    }
}

/// What a counter check-in does to the record store: once every
/// authorization check succeeds, the count is raised by exactly one, and an
/// increment past the maximum fails without wrapping.
pub open spec fn spec_check_in_counter(
    m: Map<Address, UserState>,
    authority: Identity,
    ctx: CheckIn,
) -> (Map<Address, UserState>, Result<(), HuntError>) {
    match derivation(ctx.user) {
        None => (m, Err(HuntError::AddressDerivationFailed)),
        Some(p) => match check_in_gate(m, authority, ctx) {
            Some(e) => (m, Err(e)),
            None => match counter_step(m[p.0]) {
                Err(e) => (m, Err(e)),
                Ok(next) => (m.insert(p.0, next), Ok(())),
            },
        },
    }
}

impl UserState {
    /// Overwrites the payload with the supplied location, keeping the owner.
    pub fn apply_location(&self, location: Identity) -> (r: UserState)
        ensures
            r == located(*self, location),
    {
        UserState { user: self.user, payload: Payload::Location(location) }
    }

    /// Raises the count by exactly one with checked arithmetic, keeping the
    /// owner; at the maximum count this fails rather than wrapping.
    pub fn apply_counter_step(&self) -> (r: Result<UserState, HuntError>)
        ensures
            r == counter_step(*self),
    {
        match self.payload {
            Payload::Counter(n) => if n == u64::MAX {
                Err(HuntError::CounterOverflow)
            } else {
                Ok(UserState { user: self.user, payload: Payload::Counter(n + 1) })
            },
            Payload::Location(_) => Err(HuntError::CounterOverflow),
        }
    }
}

/// The map an association list denotes: later entries win, though a registry
/// never stores a key twice.
pub open spec fn assoc_map(s: Seq<(Address, UserState)>) -> Map<Address, UserState>
    decreases s.len(),
{
    if s.len() == 0 {
        Map::empty()
    } else {
        assoc_map(s.drop_last()).insert(s.last().0, s.last().1)
    }
}

/// No storage address appears twice in the list.
pub open spec fn unique_keys(s: Seq<(Address, UserState)>) -> bool {
    forall|i: int, j: int| 0 <= i < j < s.len() ==> s[i].0 != s[j].0
}

proof fn lemma_unique_keys_drop_last(s: Seq<(Address, UserState)>)
    requires
        unique_keys(s),
        s.len() > 0,
    ensures
        unique_keys(s.drop_last()),
{
    assert forall|i: int, j: int| 0 <= i < j < s.drop_last().len() implies s.drop_last()[i].0
        != s.drop_last()[j].0 by {
        assert(s.drop_last()[i] == s[i]);
        assert(s.drop_last()[j] == s[j]);
    }
}

/// A key is in the denoted map exactly when some entry carries it.
proof fn lemma_assoc_map_contains(s: Seq<(Address, UserState)>, k: Address)
    ensures
        assoc_map(s).contains_key(k) <==> (exists|i: int| 0 <= i < s.len() && s[i].0 == k),
    decreases s.len(),
{
    if s.len() == 0 {
    } else {
        lemma_assoc_map_contains(s.drop_last(), k);
        if s.last().0 == k {
            assert(s[s.len() - 1].0 == k);
        } else {
            if exists|i: int| 0 <= i < s.len() && s[i].0 == k {
                let i = choose|i: int| 0 <= i < s.len() && s[i].0 == k;
                assert(s.drop_last()[i].0 == k);
            }
            if exists|i: int| 0 <= i < s.drop_last().len() && s.drop_last()[i].0 == k {
                let i = choose|i: int| 0 <= i < s.drop_last().len() && s.drop_last()[i].0 == k;
                assert(s[i].0 == k);
            }
        }
    }
}

/// With unique keys, the denoted map sends each entry's key to its value.
proof fn lemma_assoc_map_index(s: Seq<(Address, UserState)>, i: int)
    requires
        unique_keys(s),
        0 <= i < s.len(),
    ensures
        assoc_map(s).contains_key(s[i].0),
        assoc_map(s)[s[i].0] == s[i].1,
    decreases s.len(),
{
    if i == s.len() - 1 {
    } else {
        lemma_unique_keys_drop_last(s);
        lemma_assoc_map_index(s.drop_last(), i);
        assert(s.drop_last()[i] == s[i]);
        assert(s.last().0 != s[i].0);
    }
}

/// With unique keys, replacing one entry's value updates exactly that key in
/// the denoted map.
proof fn lemma_assoc_map_update(s: Seq<(Address, UserState)>, i: int, v: UserState)
    requires
        unique_keys(s),
        0 <= i < s.len(),
    ensures
        assoc_map(s.update(i, (s[i].0, v))) == assoc_map(s).insert(s[i].0, v),
    decreases s.len(),
{
    let s2 = s.update(i, (s[i].0, v));
    if i == s.len() - 1 {
        assert(s2.drop_last() =~= s.drop_last());
        assert(s2.last() == (s[i].0, v));
        assert(assoc_map(s.drop_last()).insert(s[i].0, s[i].1).insert(s[i].0, v) =~= assoc_map(
            s.drop_last(),
        ).insert(s[i].0, v));
    } else {
        lemma_unique_keys_drop_last(s);
        lemma_assoc_map_update(s.drop_last(), i, v);
        assert(s.drop_last()[i] == s[i]);
        assert(s2.drop_last() =~= s.drop_last().update(i, (s[i].0, v)));
        assert(s2.last() == s.last());
        assert(s[i].0 != s.last().0);
        assert(assoc_map(s.drop_last()).insert(s[i].0, v).insert(s.last().0, s.last().1) =~= assoc_map(
            s.drop_last(),
        ).insert(s.last().0, s.last().1).insert(s[i].0, v));
    }
}

/// The record store: the configured event organizer, the payload variant its
/// records carry, and one record per derived address.
pub struct Registry {
    authority: Identity,
    kind: PayloadKind,
    entries: Vec<(Address, UserState)>,
}

impl Registry {
    /// The configured event organizer, fixed at construction.
    pub closed spec fn spec_authority(self) -> Identity {
        self.authority
    }

    /// The payload variant this registry's records carry, fixed at
    /// construction.
    pub closed spec fn spec_kind(self) -> PayloadKind {
        self.kind
    }

    /// The records, as a map from derived address to record.
    pub closed spec fn records(self) -> Map<Address, UserState> {
        assoc_map(self.entries@)
    }

    /// Well-formedness: no address holds two records, every payload belongs
    /// to the configured variant, and every record sits at the address
    /// derived from its owner (so an owner, set at creation, is never
    /// reassigned, and each participant has at most one record).
    pub closed spec fn wf(self) -> bool {
        &&& unique_keys(self.entries@)
        &&& forall|i: int|
            #![trigger self.entries@[i]]
            0 <= i < self.entries@.len() ==> payload_matches(
                self.entries@[i].1.payload,
                self.kind,
            )
        &&& forall|i: int|
            #![trigger self.entries@[i]]
            0 <= i < self.entries@.len() ==> derived_address(self.entries@[i].1.user) == Some(
                self.entries@[i].0,
            )
    }

    /// An empty registry for the given event organizer and payload variant.
    pub fn new(authority: Identity, kind: PayloadKind) -> (r: Registry)
        ensures
            r.wf(),
            r.spec_authority() == authority,
            r.spec_kind() == kind,
            r.records() == Map::<Address, UserState>::empty(),
    {
        Registry { authority, kind, entries: Vec::new() }
    }

    /// Returns the configured event organizer.
    pub fn authority(&self) -> (r: Identity)
        ensures
            r == self.spec_authority(),
    {
        self.authority
    }

    /// Returns the payload variant this registry's records carry.
    pub fn payload_kind(&self) -> (r: PayloadKind)
        ensures
            r == self.spec_kind(),
    {
        self.kind
    }

    /// The position of the record stored at an address, if any.
    fn find_index(&self, addr: &Address) -> (r: Option<usize>)
        ensures
            (match r {
                Some(i) => i < self.entries@.len() && self.entries@[i as int].0 == *addr,
                None => forall|j: int| 0 <= j < self.entries@.len() ==> self.entries@[j].0 != *addr,
            }),
    {
        let mut i: usize = 0;
        while i < self.entries.len()
            invariant
                i <= self.entries@.len(),
                forall|j: int| 0 <= j < i ==> self.entries@[j].0 != *addr,
            decreases self.entries@.len() - i,
        {
            if self.entries[i].0 == *addr {
                return Some(i);
            }
            i = i + 1;
        }
        None
    }

    /// Creates the one record for the requesting participant: the request
    /// must be signed, and the participant's derived address must not hold a
    /// record yet. The new record carries the participant as owner and the
    /// variant's default payload. On failure nothing changes.
    pub fn initialize(&mut self, ctx: Initialize) -> (r: Result<(), HuntError>)
        requires
            old(self).wf(),
        ensures
            final(self).wf(),
            final(self).spec_authority() == old(self).spec_authority(),
            final(self).spec_kind() == old(self).spec_kind(),
            (final(self).records(), r) == spec_initialize(
                old(self).records(),
                old(self).spec_kind(),
                ctx,
            ),
    {
        if !ctx.user_signed {
            return Err(HuntError::InvalidSigner);
        }
        match derive_user_address(&ctx.user) {
            None => Err(HuntError::AddressDerivationFailed),
            Some((addr, _bump)) => {
                match self.find_index(&addr) {
                    Some(i) => {
                        proof {
                            lemma_assoc_map_index(self.entries@, i as int);
                        }
                        Err(HuntError::AlreadyInitialized)
                    },
                    None => {
                        proof {
                            lemma_assoc_map_contains(self.entries@, addr);
                        }
                        let state = UserState {
                            user: ctx.user,
                            payload: Payload::default_for(self.kind),
                        };
                        let ghost old_seq = self.entries@;
                        self.entries.push((addr, state));
                        proof {
                            assert(self.entries@.drop_last() =~= old_seq);
                            assert(self.entries@.last() == (addr, state));
                            assert forall|i: int, j: int|
                                0 <= i < j < self.entries@.len() implies self.entries@[i].0
                                != self.entries@[j].0 by {
                                if j < self.entries@.len() - 1 {
                                    assert(self.entries@[i] == old_seq[i]);
                                    assert(self.entries@[j] == old_seq[j]);
                                } else {
                                    assert(self.entries@[i] == old_seq[i]);
                                    assert(self.entries@[j] == (addr, state));
                                }
                            }
                        }
                        Ok(())
                    },
                }
            },
        }
    }

    /// A location check-in: with the record present, both signatures given,
    /// the participant owning the record and the organizer matching the
    /// configured authority, the payload becomes exactly the supplied
    /// location. On failure nothing changes.
    pub fn check_in(&mut self, ctx: CheckIn, location: Identity) -> (r: Result<(), HuntError>)
        requires
            old(self).wf(),
            old(self).spec_kind() == PayloadKind::Location,
        ensures
            final(self).wf(),
            final(self).spec_authority() == old(self).spec_authority(),
            final(self).spec_kind() == old(self).spec_kind(),
            (final(self).records(), r) == spec_check_in(
                old(self).records(),
                old(self).spec_authority(),
                ctx,
                location,
            ),
    {
        match derive_user_address(&ctx.user) {
            None => Err(HuntError::AddressDerivationFailed),
            Some((addr, _bump)) => match self.find_index(&addr) {
                None => {
                    proof {
                        lemma_assoc_map_contains(self.entries@, addr);
                    }
                    Err(HuntError::RecordNotFound)
                },
                Some(i) => {
                    proof {
                        lemma_assoc_map_index(self.entries@, i as int);
                    }
                    if !ctx.user_signed || !ctx.event_organizer_signed {
                        Err(HuntError::UnauthorizedSigner)
                    } else if !(self.entries[i].1.user == ctx.user) {
                        Err(HuntError::UnauthorizedSigner)
                    } else if !(ctx.event_organizer == self.authority) {
                        Err(HuntError::InvalidEventAuthority)
                    } else {
                        let cur = self.entries[i].1;
                        let updated = cur.apply_location(location);
                        let ghost old_seq = self.entries@;
                        self.entries.set(i, (addr, updated));
                        proof {
                            lemma_assoc_map_update(old_seq, i as int, updated);
                            assert forall|a: int, b: int|
                                0 <= a < b < self.entries@.len() implies self.entries@[a].0
                                != self.entries@[b].0 by {
                                assert(old_seq[a].0 == self.entries@[a].0);
                                assert(old_seq[b].0 == self.entries@[b].0);
                            }
                        }
                        Ok(())
                    }
                },
            },
        }
    }

    /// A counter check-in: under the same gate as a location check-in, the
    /// count is raised by exactly one with checked arithmetic; at the
    /// maximum count it fails with an overflow rather than wrapping. On
    /// failure nothing changes.
    pub fn check_in_counter(&mut self, ctx: CheckIn) -> (r: Result<(), HuntError>)
        requires
            old(self).wf(),
            old(self).spec_kind() == PayloadKind::Counter,
        ensures
            final(self).wf(),
            final(self).spec_authority() == old(self).spec_authority(),
            final(self).spec_kind() == old(self).spec_kind(),
            (final(self).records(), r) == spec_check_in_counter(
                old(self).records(),
                old(self).spec_authority(),
                ctx,
            ),
    {
        match derive_user_address(&ctx.user) {
            None => Err(HuntError::AddressDerivationFailed),
            Some((addr, _bump)) => match self.find_index(&addr) {
                None => {
                    proof {
                        lemma_assoc_map_contains(self.entries@, addr);
                    }
                    Err(HuntError::RecordNotFound)
                },
                Some(i) => {
                    proof {
                        lemma_assoc_map_index(self.entries@, i as int);
                    }
                    if !ctx.user_signed || !ctx.event_organizer_signed {
                        Err(HuntError::UnauthorizedSigner)
                    } else if !(self.entries[i].1.user == ctx.user) {
                        Err(HuntError::UnauthorizedSigner)
                    } else if !(ctx.event_organizer == self.authority) {
                        Err(HuntError::InvalidEventAuthority)
                    } else {
                        let cur = self.entries[i].1;
                        match cur.apply_counter_step() {
                            Err(e) => Err(e),
                            Ok(next) => {
                                let ghost old_seq = self.entries@;
                                self.entries.set(i, (addr, next));
                                proof {
                                    lemma_assoc_map_update(old_seq, i as int, next);
                                    assert forall|a: int, b: int|
                                        0 <= a < b < self.entries@.len() implies self.entries@[a].0
                                        != self.entries@[b].0 by {
                                        assert(old_seq[a].0 == self.entries@[a].0);
                                        assert(old_seq[b].0 == self.entries@[b].0);
                                    }
                                }
                                Ok(())
                            },
                        }
                    }
                },
            },
        }
    }

    /// Returns the record stored for a participant, if any.
    pub fn record_for(&self, user: &Identity) -> (r: Option<UserState>)
        requires
            self.wf(),
        ensures
            (match derivation(*user) {
                None => r is None,
                Some(p) => r == (if self.records().contains_key(p.0) {
                    Some(self.records()[p.0])
                } else {
                    None::<UserState>
                }),
            }),
    {
        match derive_user_address(user) {
            None => None,
            Some((addr, _bump)) => match self.find_index(&addr) {
                None => {
                    proof {
                        lemma_assoc_map_contains(self.entries@, addr);
                    }
                    None
                },
                Some(i) => {
                    proof {
                        lemma_assoc_map_index(self.entries@, i as int);
                    }
                    Some(self.entries[i].1)
                },
            },
        }
    }
}

impl Payload {
    /// The default payload of the given variant: the zero location or a
    /// zero count.
    pub fn default_for(kind: PayloadKind) -> (r: Payload)
        ensures
            r == default_payload(kind),
    {
        match kind {
            PayloadKind::Location => Payload::Location(Identity::zero()),
            PayloadKind::Counter => Payload::Counter(0),
        }
    }
}

} // verus!
