use vstd::prelude::*;

use crate::types::{AccountId, ClaimRecord, Error, Event, Fingerprint, Origin, signer_of};

verus! {

// The registry's state machine, stated over its mathematical view: a map
// from fingerprint to claim record and the sequence of emitted events.
// For each operation, three functions give the returned outcome, the next
// map, and the next event log. The executable registry is proved to follow
// them exactly, and the laws at the end of this file are proved about them.

/// What `create_claim` returns: an anonymous caller is refused, a fingerprint
/// that already carries a claim is refused, anything else succeeds.
pub open spec fn create_outcome(
    claims: Map<Fingerprint, ClaimRecord>,
    origin: Origin,
    claim: Fingerprint,
) -> Result<(), Error> {
    match signer_of(origin) {
        Err(e) => Err(e),
        Ok(who) => if claims.contains_key(claim) {
            Err(Error::AlreadyClaimed)
        } else {
            Ok(())
        },
    }
}

/// The map after `create_claim`: on success the new record is inserted,
/// on any failure the map is unchanged.
pub open spec fn create_next(
    claims: Map<Fingerprint, ClaimRecord>,
    origin: Origin,
    claim: Fingerprint,
    now: u64,
) -> Map<Fingerprint, ClaimRecord> {
    match signer_of(origin) {
        Err(_) => claims,
        Ok(who) => if claims.contains_key(claim) {
            claims
        } else {
            claims.insert(claim, ClaimRecord { owner: who, registered_at: now })
        },
    }
}

/// The event log after `create_claim`: a `ClaimCreated` notification on
/// success, nothing on a failed call.
pub open spec fn create_emit(
    events: Seq<Event>,
    claims: Map<Fingerprint, ClaimRecord>,
    origin: Origin,
    claim: Fingerprint,
) -> Seq<Event> {
    match signer_of(origin) {
        Err(_) => events,
        Ok(who) => if claims.contains_key(claim) {
            events
        } else {
            events.push(Event::ClaimCreated { who, claim })
        },
    }
}

/// What `revoke_claim` returns: an anonymous caller is refused, an absent
/// fingerprint is refused, a caller other than the record's owner is
/// refused, the owner succeeds.
pub open spec fn revoke_outcome(
    claims: Map<Fingerprint, ClaimRecord>,
    origin: Origin,
    claim: Fingerprint,
) -> Result<(), Error> {
    match signer_of(origin) {
        Err(e) => Err(e),
        Ok(who) => if !claims.contains_key(claim) {
            Err(Error::NoSuchClaim)
        } else if claims[claim].owner != who {
            Err(Error::NotClaimOwner)
        } else {
            Ok(())
        },
    }
}

/// The map after `revoke_claim`: on success the record is removed,
/// on any failure the map is unchanged.
pub open spec fn revoke_next(
    claims: Map<Fingerprint, ClaimRecord>,
    origin: Origin,
    claim: Fingerprint,
) -> Map<Fingerprint, ClaimRecord> {
    if revoke_outcome(claims, origin, claim) is Ok {
        claims.remove(claim)
    } else {
        claims
    }
}

/// The event log after `revoke_claim`: a `ClaimRevoked` notification on
/// success, nothing on a failed call.
pub open spec fn revoke_emit(
    events: Seq<Event>,
    claims: Map<Fingerprint, ClaimRecord>,
    origin: Origin,
    claim: Fingerprint,
) -> Seq<Event> {
    match signer_of(origin) {
        Err(_) => events,
        Ok(who) => if revoke_outcome(claims, origin, claim) is Ok {
            events.push(Event::ClaimRevoked { who, claim })
        } else {
            events
        },
    }
}

// The laws of the state machine. Each is proved once and for all over the
// model; the registry's operations are proved to follow the model exactly,
// so each law carries over to any run of the executable registry.

/// A fingerprint never claimed before can be claimed, and a later attempt to
/// claim it again fails with `AlreadyClaimed` — whoever makes it, at whatever
/// time, including the owner.
pub proof fn lemma_first_claim_wins(
    claims: Map<Fingerprint, ClaimRecord>,
    a: AccountId,
    f: Fingerprint,
    t: u64,
    b: AccountId,
    t2: u64,
)
    requires
        !claims.contains_key(f),
    ensures
        create_outcome(claims, Origin::Signed(a), f) == Ok::<(), Error>(()),
        create_outcome(create_next(claims, Origin::Signed(a), f, t), Origin::Signed(b), f)
            == Err::<(), Error>(Error::AlreadyClaimed),
{
}

/// Revoking a fingerprint that carries no claim fails with `NoSuchClaim`
/// for every caller, and changes nothing.
pub proof fn lemma_revoke_unclaimed_fails(
    claims: Map<Fingerprint, ClaimRecord>,
    a: AccountId,
    f: Fingerprint,
)
    requires
        !claims.contains_key(f),
    ensures
        revoke_outcome(claims, Origin::Signed(a), f) == Err::<(), Error>(Error::NoSuchClaim),
        revoke_next(claims, Origin::Signed(a), f) == claims,
{
}

/// After a successful claim, a revocation by anyone but the owner fails with
/// `NotClaimOwner`, and the record — owner and timestamp alike — stands
/// exactly as before the failed call.
pub proof fn lemma_only_owner_revokes(
    claims: Map<Fingerprint, ClaimRecord>,
    a: AccountId,
    f: Fingerprint,
    t: u64,
    b: AccountId,
)
    requires
        !claims.contains_key(f),
        b != a,
    ensures
        revoke_outcome(create_next(claims, Origin::Signed(a), f, t), Origin::Signed(b), f)
            == Err::<(), Error>(Error::NotClaimOwner),
        revoke_next(create_next(claims, Origin::Signed(a), f, t), Origin::Signed(b), f)
            == create_next(claims, Origin::Signed(a), f, t),
        revoke_next(create_next(claims, Origin::Signed(a), f, t), Origin::Signed(b), f)[f] == (
        ClaimRecord { owner: a, registered_at: t }),
{
}

/// A claim followed by the owner's revocation both succeed, leave the
/// fingerprint absent — indeed restore the map exactly — and the fingerprint
/// can then be claimed afresh by anyone.
pub proof fn lemma_reclaim_after_revoke(
    claims: Map<Fingerprint, ClaimRecord>,
    a: AccountId,
    f: Fingerprint,
    t: u64,
    c: AccountId,
)
    requires
        !claims.contains_key(f),
    ensures
        create_outcome(claims, Origin::Signed(a), f) is Ok,
        revoke_outcome(create_next(claims, Origin::Signed(a), f, t), Origin::Signed(a), f) is Ok,
        !revoke_next(create_next(claims, Origin::Signed(a), f, t), Origin::Signed(a), f)
            .contains_key(f),
        revoke_next(create_next(claims, Origin::Signed(a), f, t), Origin::Signed(a), f) == claims,
        create_outcome(
            revoke_next(create_next(claims, Origin::Signed(a), f, t), Origin::Signed(a), f),
            Origin::Signed(c),
            f,
        ) is Ok,
{
    assert(revoke_next(create_next(claims, Origin::Signed(a), f, t), Origin::Signed(a), f)
        =~= claims);
}

/// Failure is idempotent: a failing call changes neither the map nor the
/// event log, so repeating it — any number of times — yields the very same
/// error and still changes nothing.
pub proof fn lemma_failure_changes_nothing(
    claims: Map<Fingerprint, ClaimRecord>,
    events: Seq<Event>,
    origin: Origin,
    f: Fingerprint,
    t: u64,
)
    ensures
        create_outcome(claims, origin, f) is Err ==> create_next(claims, origin, f, t) == claims
            && create_emit(events, claims, origin, f) == events,
        revoke_outcome(claims, origin, f) is Err ==> revoke_next(claims, origin, f) == claims
            && revoke_emit(events, claims, origin, f) == events,
        create_outcome(claims, origin, f) is Err ==> create_outcome(
            create_next(claims, origin, f, t),
            origin,
            f,
        ) == create_outcome(claims, origin, f),
        revoke_outcome(claims, origin, f) is Err ==> revoke_outcome(
            revoke_next(claims, origin, f),
            origin,
            f,
        ) == revoke_outcome(claims, origin, f),
{
}

} // verus!
