//! Laws of the record lifecycle, proved once and for all over the
//! specification-level transitions of the registry.

use vstd::prelude::*;

use crate::addressing::derivation;
use crate::identity::Address;
use crate::identity::Identity;
use crate::state::counter_step;
use crate::state::default_payload;
use crate::state::located;
use crate::state::spec_check_in;
use crate::state::spec_check_in_counter;
use crate::state::spec_initialize;
use crate::state::CheckIn;
use crate::state::HuntError;
use crate::state::Initialize;
use crate::state::Payload;
use crate::state::PayloadKind;
use crate::state::UserState;

verus! {

/// Address derivation is deterministic: the same identity always derives
/// the same address and bump.
pub proof fn lemma_derivation_deterministic(u1: Identity, u2: Identity)
    requires
        u1 == u2,
    ensures
        derivation(u1) == derivation(u2),
{
}

/// Creating a record twice for the same identity cannot succeed: the second
/// attempt targets the same derived slot, fails with an allocation
/// conflict, and leaves the first record untouched.
pub proof fn lemma_initialize_twice_conflicts(
    m: Map<Address, UserState>,
    kind: PayloadKind,
    ctx: Initialize,
)
    requires
        spec_initialize(m, kind, ctx).1 is Ok,
    ensures
        ({
            let m1 = spec_initialize(m, kind, ctx).0;
            spec_initialize(m1, kind, ctx) == (m1, Err::<(), HuntError>(
                HuntError::AlreadyInitialized,
            ))
        }),
{
}

/// A check-in before any creation for the same identity fails as not found
/// and changes nothing, whatever the signatures say.
pub proof fn lemma_check_in_before_initialize_not_found(
    m: Map<Address, UserState>,
    authority: Identity,
    ctx: CheckIn,
    location: Identity,
    a: Address,
    b: u8,
)
    requires
        derivation(ctx.user) == Some((a, b)),
        !m.contains_key(a),
    ensures
        spec_check_in(m, authority, ctx, location) == (m, Err::<(), HuntError>(
            HuntError::RecordNotFound,
        )),
        spec_check_in_counter(m, authority, ctx) == (m, Err::<(), HuntError>(
            HuntError::RecordNotFound,
        )),
{
}

/// A check-in whose second signer is any identity other than the configured
/// event organizer fails with an authority mismatch and alters no payload,
/// even with the participant's own signature in order.
pub proof fn lemma_wrong_authority_rejected(
    m: Map<Address, UserState>,
    authority: Identity,
    ctx: CheckIn,
    location: Identity,
    a: Address,
    b: u8,
)
    requires
        derivation(ctx.user) == Some((a, b)),
        m.contains_key(a),
        m[a].user == ctx.user,
        ctx.user_signed,
        ctx.event_organizer_signed,
        ctx.event_organizer != authority,
    ensures
        spec_check_in(m, authority, ctx, location) == (m, Err::<(), HuntError>(
            HuntError::InvalidEventAuthority,
        )),
        spec_check_in_counter(m, authority, ctx) == (m, Err::<(), HuntError>(
            HuntError::InvalidEventAuthority,
        )),
{
}

/// Failure is all-or-nothing: a creation or check-in that returns an error
/// leaves the record store exactly as it was.
pub proof fn lemma_failure_mutates_nothing(
    m: Map<Address, UserState>,
    kind: PayloadKind,
    authority: Identity,
    ictx: Initialize,
    cctx: CheckIn,
    location: Identity,
)
    ensures
        spec_initialize(m, kind, ictx).1 is Err ==> spec_initialize(m, kind, ictx).0 == m,
        spec_check_in(m, authority, cctx, location).1 is Err ==> spec_check_in(
            m,
            authority,
            cctx,
            location,
        ).0 == m,
        spec_check_in_counter(m, authority, cctx).1 is Err ==> spec_check_in_counter(
            m,
            authority,
            cctx,
        ).0 == m,
{
}

/// A creation stores the requesting identity as the new record's owner with
/// the default payload, and touches no other record.
pub proof fn lemma_initialize_sets_owner(
    m: Map<Address, UserState>,
    kind: PayloadKind,
    ctx: Initialize,
    a: Address,
    b: u8,
)
    requires
        derivation(ctx.user) == Some((a, b)),
        spec_initialize(m, kind, ctx).1 is Ok,
    ensures
        spec_initialize(m, kind, ctx).0.contains_key(a),
        spec_initialize(m, kind, ctx).0[a] == (UserState {
            user: ctx.user,
            payload: default_payload(kind),
        }),
        forall|k: Address|
            k != a && m.contains_key(k) ==> spec_initialize(m, kind, ctx).0.contains_key(k)
                && spec_initialize(m, kind, ctx).0[k] == m[k],
{
}

/// An owner is never reassigned and no check-in creates or deletes a
/// record: whatever a check-in returns, the stored addresses stay the same
/// and every record keeps its owner.
pub proof fn lemma_check_in_preserves_owners_and_domain(
    m: Map<Address, UserState>,
    authority: Identity,
    ctx: CheckIn,
    location: Identity,
)
    ensures
        spec_check_in(m, authority, ctx, location).0.dom() == m.dom(),
        forall|k: Address|
            m.contains_key(k) ==> spec_check_in(m, authority, ctx, location).0[k].user
                == m[k].user,
        spec_check_in_counter(m, authority, ctx).0.dom() == m.dom(),
        forall|k: Address|
            m.contains_key(k) ==> spec_check_in_counter(m, authority, ctx).0[k].user == m[k].user,
{
    match derivation(ctx.user) {
        None => {},
        Some(p) => {
            let a = p.0;
            if m.contains_key(a) {
                assert(m.insert(a, located(m[a], location)).dom() =~= m.dom());
                match counter_step(m[a]) {
                    Err(_) => {},
                    Ok(next) => {
                        assert(m.insert(a, next).dom() =~= m.dom());
                    },
                }
            }
        },
    }
}

/// A successful location check-in makes the payload exactly the supplied
/// value, keeping the owner; repeating it with the same value succeeds and
/// changes nothing further, and a different value simply overwrites (no
/// history is kept).
pub proof fn lemma_location_check_in_overwrites(
    m: Map<Address, UserState>,
    authority: Identity,
    ctx: CheckIn,
    location: Identity,
    a: Address,
    b: u8,
)
    requires
        derivation(ctx.user) == Some((a, b)),
        spec_check_in(m, authority, ctx, location).1 is Ok,
    ensures
        ({
            let m1 = spec_check_in(m, authority, ctx, location).0;
            m1[a] == located(m[a], location) && m1[a].payload == Payload::Location(location)
                && m1[a].user == m[a].user && spec_check_in(m1, authority, ctx, location) == (
            m1,
            Ok::<(), HuntError>(()),
            )
        }),
{
    let m1 = spec_check_in(m, authority, ctx, location).0;
    assert(m1.insert(a, located(m1[a], location)) =~= m1);
}

/// One successful counter check-in raises the count by exactly one; this is
/// the sole way a counter payload changes.
pub proof fn lemma_counter_check_in_increments(
    m: Map<Address, UserState>,
    authority: Identity,
    ctx: CheckIn,
    a: Address,
    b: u8,
    n: u64,
)
    requires
        derivation(ctx.user) == Some((a, b)),
        m.contains_key(a),
        m[a].payload == Payload::Counter(n),
        spec_check_in_counter(m, authority, ctx).1 is Ok,
    ensures
        n < u64::MAX,
        spec_check_in_counter(m, authority, ctx).0[a].payload == Payload::Counter((n + 1) as u64),
        spec_check_in_counter(m, authority, ctx).0[a].user == m[a].user,
{
}

/// The record store after `n` successive counter check-ins for the same
/// authorized participant.
pub open spec fn counter_check_ins(
    m: Map<Address, UserState>,
    authority: Identity,
    ctx: CheckIn,
    n: nat,
) -> Map<Address, UserState>
    decreases n,
{
    if n == 0 {
        m
    } else {
        spec_check_in_counter(counter_check_ins(m, authority, ctx, (n - 1) as nat), authority, ctx).0
    }
}

/// Starting from a count of zero, `n` successive authorized counter
/// check-ins leave the count at exactly `n`: the counter counts check-ins.
pub proof fn lemma_counter_counts_check_ins(
    m: Map<Address, UserState>,
    authority: Identity,
    ctx: CheckIn,
    a: Address,
    b: u8,
    n: nat,
)
    requires
        derivation(ctx.user) == Some((a, b)),
        m.contains_key(a),
        m[a] == (UserState { user: ctx.user, payload: Payload::Counter(0) }),
        ctx.user_signed,
        ctx.event_organizer_signed,
        ctx.event_organizer == authority,
        n <= u64::MAX,
    ensures
        counter_check_ins(m, authority, ctx, n).contains_key(a),
        counter_check_ins(m, authority, ctx, n)[a] == (UserState {
            user: ctx.user,
            payload: Payload::Counter(n as u64),
        }),
    decreases n,
{
    if n == 0 {
    } else {
        lemma_counter_counts_check_ins(m, authority, ctx, a, b, (n - 1) as nat);
        let prev = counter_check_ins(m, authority, ctx, (n - 1) as nat);
        assert(prev[a].payload == Payload::Counter(((n - 1) as nat) as u64));
        assert((((n - 1) as nat) as u64) < u64::MAX);
        assert(((n - 1) as nat) as u64 + 1 == n as u64);
    }
}

/// A counter at its maximum representable value rejects one more authorized
/// check-in with an overflow and stays exactly where it was, rather than
/// wrapping to zero.
pub proof fn lemma_counter_overflow_rejected(
    m: Map<Address, UserState>,
    authority: Identity,
    ctx: CheckIn,
    a: Address,
    b: u8,
)
    requires
        derivation(ctx.user) == Some((a, b)),
        m.contains_key(a),
        m[a].payload == Payload::Counter(u64::MAX),
    ensures
        spec_check_in_counter(m, authority, ctx).0 == m,
        spec_check_in_counter(m, authority, ctx).1 is Err,
        counter_step(m[a]) == Err::<UserState, HuntError>(HuntError::CounterOverflow),
{
}

} // verus!
