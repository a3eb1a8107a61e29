use scavenger_hunt::addressing::derive_user_address;
use scavenger_hunt::Identity;

fn ident(w0: u64, w1: u64, w2: u64, w3: u64) -> Identity {
    Identity { w0, w1, w2, w3 }
}

#[test]
fn deriving_twice_yields_the_same_address() {
    let u = ident(1, 2, 3, 4);
    let first = derive_user_address(&u).expect("derivation should find a bump");
    let second = derive_user_address(&u).expect("derivation should find a bump");
    assert_eq!(first, second);
}

#[test]
fn different_identities_derive_different_addresses() {
    let u1 = ident(1, 2, 3, 4);
    let u2 = ident(4, 3, 2, 1);
    let a1 = derive_user_address(&u1).expect("derivation should find a bump").0;
    let a2 = derive_user_address(&u2).expect("derivation should find a bump").0;
    assert_ne!(a1, a2);
}

#[test]
fn derived_address_is_not_the_identity_itself() {
    let u = ident(7, 7, 7, 7);
    let a = derive_user_address(&u).expect("derivation should find a bump").0;
    assert!((a.w0, a.w1, a.w2, a.w3) != (u.w0, u.w1, u.w2, u.w3));
}

#[test]
fn zero_identity_derives_an_address() {
    let u = Identity::zero();
    assert!(derive_user_address(&u).is_some());
}
