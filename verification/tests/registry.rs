use claim_registry::registry::Pallet;
use claim_registry::types::{AccountId, ClaimRecord, Error, Event, Fingerprint, Origin};

const ALICE: AccountId = AccountId(1);
const BOB: AccountId = AccountId(2);
const CAROL: AccountId = AccountId(3);
const H1: Fingerprint = Fingerprint(0x1111);
const H2: Fingerprint = Fingerprint(0x2222);

#[test]
fn new_registry_is_empty() {
    let registry = Pallet::new();
    assert!(!registry.is_claimed(&H1));
    assert_eq!(registry.get_claim(&H1), None);
    assert!(registry.event_log().is_empty());
}

#[test]
fn create_stores_owner_and_timestamp() {
    let mut registry = Pallet::new();
    assert_eq!(registry.create_claim(Origin::Signed(ALICE), H1, 10), Ok(()));
    assert!(registry.is_claimed(&H1));
    assert_eq!(
        registry.get_claim(&H1),
        Some(ClaimRecord { owner: ALICE, registered_at: 10 })
    );
    assert!(!registry.is_claimed(&H2));
}

#[test]
fn second_create_fails_already_claimed() {
    let mut registry = Pallet::new();
    assert_eq!(registry.create_claim(Origin::Signed(ALICE), H1, 10), Ok(()));
    // Another account cannot claim the same fingerprint...
    assert_eq!(
        registry.create_claim(Origin::Signed(BOB), H1, 20),
        Err(Error::AlreadyClaimed)
    );
    // ...and neither can the owner claim it again.
    assert_eq!(
        registry.create_claim(Origin::Signed(ALICE), H1, 30),
        Err(Error::AlreadyClaimed)
    );
    // The original record is untouched.
    assert_eq!(
        registry.get_claim(&H1),
        Some(ClaimRecord { owner: ALICE, registered_at: 10 })
    );
}

#[test]
fn revoke_unclaimed_fails_no_such_claim() {
    let mut registry = Pallet::new();
    assert_eq!(
        registry.revoke_claim(Origin::Signed(ALICE), H1),
        Err(Error::NoSuchClaim)
    );
    assert_eq!(
        registry.revoke_claim(Origin::Signed(BOB), H1),
        Err(Error::NoSuchClaim)
    );
    assert!(registry.event_log().is_empty());
}

#[test]
fn only_owner_can_revoke() {
    let mut registry = Pallet::new();
    assert_eq!(registry.create_claim(Origin::Signed(ALICE), H1, 10), Ok(()));
    assert_eq!(
        registry.revoke_claim(Origin::Signed(BOB), H1),
        Err(Error::NotClaimOwner)
    );
    // The record is unchanged after the failed call: same owner, same stamp.
    assert_eq!(
        registry.get_claim(&H1),
        Some(ClaimRecord { owner: ALICE, registered_at: 10 })
    );
}

#[test]
fn reclaim_after_revoke() {
    let mut registry = Pallet::new();
    assert_eq!(registry.create_claim(Origin::Signed(ALICE), H1, 10), Ok(()));
    assert_eq!(registry.revoke_claim(Origin::Signed(ALICE), H1), Ok(()));
    assert!(!registry.is_claimed(&H1));
    assert_eq!(registry.get_claim(&H1), None);
    // A fresh claim by a different account succeeds and gets the new stamp.
    assert_eq!(registry.create_claim(Origin::Signed(CAROL), H1, 42), Ok(()));
    assert_eq!(
        registry.get_claim(&H1),
        Some(ClaimRecord { owner: CAROL, registered_at: 42 })
    );
}

#[test]
fn failing_calls_are_idempotent() {
    let mut registry = Pallet::new();
    assert_eq!(registry.create_claim(Origin::Signed(ALICE), H1, 10), Ok(()));
    let log_before = registry.event_log().clone();
    // Two consecutive revocations by a non-owner fail identically...
    assert_eq!(
        registry.revoke_claim(Origin::Signed(BOB), H1),
        Err(Error::NotClaimOwner)
    );
    assert_eq!(
        registry.revoke_claim(Origin::Signed(BOB), H1),
        Err(Error::NotClaimOwner)
    );
    // ...two consecutive re-claims fail identically...
    assert_eq!(
        registry.create_claim(Origin::Signed(BOB), H1, 20),
        Err(Error::AlreadyClaimed)
    );
    assert_eq!(
        registry.create_claim(Origin::Signed(BOB), H1, 20),
        Err(Error::AlreadyClaimed)
    );
    // ...and nothing was mutated or emitted along the way.
    assert_eq!(
        registry.get_claim(&H1),
        Some(ClaimRecord { owner: ALICE, registered_at: 10 })
    );
    assert_eq!(registry.event_log(), &log_before);
}

#[test]
fn unsigned_calls_fail_unauthenticated() {
    let mut registry = Pallet::new();
    assert_eq!(
        registry.create_claim(Origin::Unsigned, H1, 10),
        Err(Error::Unauthenticated)
    );
    assert_eq!(
        registry.revoke_claim(Origin::Unsigned, H1),
        Err(Error::Unauthenticated)
    );
    assert!(!registry.is_claimed(&H1));
    assert!(registry.event_log().is_empty());
}

#[test]
fn ensure_signed_extracts_the_signer() {
    assert_eq!(
        claim_registry::types::ensure_signed(Origin::Signed(ALICE)),
        Ok(ALICE)
    );
    assert_eq!(
        claim_registry::types::ensure_signed(Origin::Unsigned),
        Err(Error::Unauthenticated)
    );
}

#[test]
fn full_lifecycle_scenario() {
    let mut registry = Pallet::new();
    assert_eq!(registry.create_claim(Origin::Signed(ALICE), H1, 10), Ok(()));
    assert_eq!(
        registry.event_log(),
        &vec![Event::ClaimCreated { who: ALICE, claim: H1 }]
    );
    assert_eq!(
        registry.create_claim(Origin::Signed(BOB), H1, 20),
        Err(Error::AlreadyClaimed)
    );
    assert_eq!(
        registry.revoke_claim(Origin::Signed(BOB), H1),
        Err(Error::NotClaimOwner)
    );
    assert_eq!(registry.revoke_claim(Origin::Signed(ALICE), H1), Ok(()));
    assert_eq!(
        registry.revoke_claim(Origin::Signed(ALICE), H1),
        Err(Error::NoSuchClaim)
    );
    // Exactly the two successful transitions were announced, in order.
    assert_eq!(
        registry.event_log(),
        &vec![
            Event::ClaimCreated { who: ALICE, claim: H1 },
            Event::ClaimRevoked { who: ALICE, claim: H1 },
        ]
    );
}

#[test]
fn independent_fingerprints_do_not_interfere() {
    let mut registry = Pallet::new();
    assert_eq!(registry.create_claim(Origin::Signed(ALICE), H1, 10), Ok(()));
    assert_eq!(registry.create_claim(Origin::Signed(BOB), H2, 11), Ok(()));
    assert_eq!(registry.revoke_claim(Origin::Signed(ALICE), H1), Ok(()));
    // Revoking one claim leaves the other intact.
    assert_eq!(
        registry.get_claim(&H2),
        Some(ClaimRecord { owner: BOB, registered_at: 11 })
    );
    assert_eq!(registry.get_claim(&H1), None);
}
