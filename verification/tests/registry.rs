use scavenger_hunt::identity::event_organizer;
use scavenger_hunt::CheckIn;
use scavenger_hunt::HuntError;
use scavenger_hunt::Identity;
use scavenger_hunt::Initialize;
use scavenger_hunt::Payload;
use scavenger_hunt::PayloadKind;
use scavenger_hunt::Registry;
use scavenger_hunt::UserState;

fn ident(w0: u64, w1: u64, w2: u64, w3: u64) -> Identity {
    Identity { w0, w1, w2, w3 }
}

fn alice() -> Identity {
    ident(0xa11ce, 1, 2, 3)
}

fn organizer() -> Identity {
    ident(0x0e6, 5, 6, 7)
}

fn signed_init(user: Identity) -> Initialize {
    Initialize { user, user_signed: true }
}

fn dual_signed(user: Identity, org: Identity) -> CheckIn {
    CheckIn { user, user_signed: true, event_organizer: org, event_organizer_signed: true }
}

#[test]
fn initialize_sets_owner_and_default_location_payload() {
    let mut reg = Registry::new(organizer(), PayloadKind::Location);
    assert_eq!(reg.initialize(signed_init(alice())), Ok(()));
    let rec = reg.record_for(&alice()).expect("record should exist");
    assert_eq!(rec, UserState { user: alice(), payload: Payload::Location(Identity::zero()) });
}

#[test]
fn initialize_sets_default_counter_payload() {
    let mut reg = Registry::new(organizer(), PayloadKind::Counter);
    assert_eq!(reg.initialize(signed_init(alice())), Ok(()));
    let rec = reg.record_for(&alice()).expect("record should exist");
    assert_eq!(rec.payload, Payload::Counter(0));
}

#[test]
fn initialize_without_signature_fails() {
    let mut reg = Registry::new(organizer(), PayloadKind::Location);
    let ctx = Initialize { user: alice(), user_signed: false };
    assert_eq!(reg.initialize(ctx), Err(HuntError::InvalidSigner));
    assert!(reg.record_for(&alice()).is_none());
}

#[test]
fn initialize_twice_fails_and_leaves_payload_untouched() {
    let mut reg = Registry::new(organizer(), PayloadKind::Location);
    assert_eq!(reg.initialize(signed_init(alice())), Ok(()));
    let gate_a = ident(0xaaaa, 0, 0, 1);
    assert_eq!(reg.check_in(dual_signed(alice(), organizer()), gate_a), Ok(()));
    assert_eq!(reg.initialize(signed_init(alice())), Err(HuntError::AlreadyInitialized));
    let rec = reg.record_for(&alice()).expect("record should exist");
    assert_eq!(rec.payload, Payload::Location(gate_a));
}

#[test]
fn check_in_before_initialize_is_not_found() {
    let mut reg = Registry::new(organizer(), PayloadKind::Location);
    let gate_a = ident(0xaaaa, 0, 0, 1);
    assert_eq!(
        reg.check_in(dual_signed(alice(), organizer()), gate_a),
        Err(HuntError::RecordNotFound)
    );
}

#[test]
fn check_in_without_participant_signature_fails() {
    let mut reg = Registry::new(organizer(), PayloadKind::Location);
    assert_eq!(reg.initialize(signed_init(alice())), Ok(()));
    let ctx = CheckIn {
        user: alice(),
        user_signed: false,
        event_organizer: organizer(),
        event_organizer_signed: true,
    };
    let gate_a = ident(0xaaaa, 0, 0, 1);
    assert_eq!(reg.check_in(ctx, gate_a), Err(HuntError::UnauthorizedSigner));
    let rec = reg.record_for(&alice()).expect("record should exist");
    assert_eq!(rec.payload, Payload::Location(Identity::zero()));
}

#[test]
fn check_in_without_organizer_signature_fails() {
    let mut reg = Registry::new(organizer(), PayloadKind::Location);
    assert_eq!(reg.initialize(signed_init(alice())), Ok(()));
    let ctx = CheckIn {
        user: alice(),
        user_signed: true,
        event_organizer: organizer(),
        event_organizer_signed: false,
    };
    let gate_a = ident(0xaaaa, 0, 0, 1);
    assert_eq!(reg.check_in(ctx, gate_a), Err(HuntError::UnauthorizedSigner));
    let rec = reg.record_for(&alice()).expect("record should exist");
    assert_eq!(rec.payload, Payload::Location(Identity::zero()));
}

#[test]
fn check_in_with_wrong_authority_fails_and_alters_nothing() {
    let mut reg = Registry::new(organizer(), PayloadKind::Location);
    assert_eq!(reg.initialize(signed_init(alice())), Ok(()));
    let impostor = ident(0xbad, 8, 9, 10);
    let gate_a = ident(0xaaaa, 0, 0, 1);
    assert_eq!(
        reg.check_in(dual_signed(alice(), impostor), gate_a),
        Err(HuntError::InvalidEventAuthority)
    );
    let rec = reg.record_for(&alice()).expect("record should exist");
    assert_eq!(rec.payload, Payload::Location(Identity::zero()));
}

#[test]
fn location_check_in_overwrites_and_keeps_no_history() {
    let mut reg = Registry::new(organizer(), PayloadKind::Location);
    assert_eq!(reg.initialize(signed_init(alice())), Ok(()));
    let rec = reg.record_for(&alice()).expect("record should exist");
    assert_eq!(rec.payload, Payload::Location(Identity::zero()));
    let gate_a = ident(0xaaaa, 0, 0, 1);
    let gate_b = ident(0xbbbb, 0, 0, 2);
    assert_eq!(reg.check_in(dual_signed(alice(), organizer()), gate_a), Ok(()));
    let rec = reg.record_for(&alice()).expect("record should exist");
    assert_eq!(rec, UserState { user: alice(), payload: Payload::Location(gate_a) });
    assert_eq!(reg.check_in(dual_signed(alice(), organizer()), gate_b), Ok(()));
    let rec = reg.record_for(&alice()).expect("record should exist");
    assert_eq!(rec, UserState { user: alice(), payload: Payload::Location(gate_b) });
}

#[test]
fn location_check_in_is_idempotent_for_the_same_value() {
    let mut reg = Registry::new(organizer(), PayloadKind::Location);
    assert_eq!(reg.initialize(signed_init(alice())), Ok(()));
    let gate_a = ident(0xaaaa, 0, 0, 1);
    assert_eq!(reg.check_in(dual_signed(alice(), organizer()), gate_a), Ok(()));
    assert_eq!(reg.check_in(dual_signed(alice(), organizer()), gate_a), Ok(()));
    let rec = reg.record_for(&alice()).expect("record should exist");
    assert_eq!(rec.payload, Payload::Location(gate_a));
}

#[test]
fn counter_counts_successful_check_ins() {
    let mut reg = Registry::new(organizer(), PayloadKind::Counter);
    assert_eq!(reg.initialize(signed_init(alice())), Ok(()));
    for _ in 0..3 {
        assert_eq!(reg.check_in_counter(dual_signed(alice(), organizer())), Ok(()));
    }
    let rec = reg.record_for(&alice()).expect("record should exist");
    assert_eq!(rec, UserState { user: alice(), payload: Payload::Counter(3) });
}

#[test]
fn counter_check_in_with_wrong_authority_fails() {
    let mut reg = Registry::new(organizer(), PayloadKind::Counter);
    assert_eq!(reg.initialize(signed_init(alice())), Ok(()));
    let impostor = ident(0xbad, 8, 9, 10);
    assert_eq!(
        reg.check_in_counter(dual_signed(alice(), impostor)),
        Err(HuntError::InvalidEventAuthority)
    );
    let rec = reg.record_for(&alice()).expect("record should exist");
    assert_eq!(rec.payload, Payload::Counter(0));
}

#[test]
fn counter_step_increments_by_exactly_one() {
    let s = UserState { user: alice(), payload: Payload::Counter(5) };
    let next = s.apply_counter_step().expect("increment should succeed");
    assert_eq!(next, UserState { user: alice(), payload: Payload::Counter(6) });
}

#[test]
fn counter_step_at_maximum_overflows_without_wrapping() {
    let s = UserState { user: alice(), payload: Payload::Counter(u64::MAX) };
    assert_eq!(s.apply_counter_step(), Err(HuntError::CounterOverflow));
}

#[test]
fn the_compiled_in_event_organizer_authorizes_check_ins() {
    let mut reg = Registry::new(event_organizer(), PayloadKind::Location);
    assert_eq!(reg.initialize(signed_init(alice())), Ok(()));
    let gate_a = ident(0xaaaa, 0, 0, 1);
    assert_eq!(reg.check_in(dual_signed(alice(), event_organizer()), gate_a), Ok(()));
    let rec = reg.record_for(&alice()).expect("record should exist");
    assert_eq!(rec.payload, Payload::Location(gate_a));
}

#[test]
fn two_participants_get_independent_records() {
    let mut reg = Registry::new(organizer(), PayloadKind::Location);
    let bob = ident(0xb0b, 11, 12, 13);
    assert_eq!(reg.initialize(signed_init(alice())), Ok(()));
    assert_eq!(reg.initialize(signed_init(bob)), Ok(()));
    let gate_a = ident(0xaaaa, 0, 0, 1);
    assert_eq!(reg.check_in(dual_signed(alice(), organizer()), gate_a), Ok(()));
    let alice_rec = reg.record_for(&alice()).expect("record should exist");
    let bob_rec = reg.record_for(&bob).expect("record should exist");
    assert_eq!(alice_rec.payload, Payload::Location(gate_a));
    assert_eq!(bob_rec.payload, Payload::Location(Identity::zero()));
}
