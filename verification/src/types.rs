use vstd::prelude::*;

verus! {

/// An opaque, fixed-size content fingerprint; the key of the registry.
/// It is produced outside the registry (for instance by hashing a document);
/// the registry never inspects it beyond identity.
#[derive(Clone, Copy, PartialEq, Eq, Structural, Hash, Debug)]
pub struct Fingerprint(pub u128);

/// A caller identity, as established by the host's identity layer.
#[derive(Clone, Copy, PartialEq, Eq, Structural, Hash, Debug)]
pub struct AccountId(pub u64);

/// The value stored for a claimed fingerprint: who owns the claim and the
/// logical clock value observed when it was created. Both fields are
/// immutable once set; a record only ever disappears by revocation.
#[derive(Clone, Copy, PartialEq, Eq, Structural, Debug)]
pub struct ClaimRecord {
    pub owner: AccountId,
    pub registered_at: u64,
}

/// The provenance of a call: either signed by a verified identity, or
/// anonymous. The registry trusts the host's verification unconditionally.
#[derive(Clone, Copy, PartialEq, Eq, Structural, Debug)]
pub enum Origin {
    Signed(AccountId),
    Unsigned,
}

/// A notification emitted after a successful state change, attributed to the
/// operation that caused it. Nothing is emitted on a failed call.
#[derive(Clone, Copy, PartialEq, Eq, Structural, Debug)]
pub enum Event {
    ClaimCreated { who: AccountId, claim: Fingerprint },
    ClaimRevoked { who: AccountId, claim: Fingerprint },
}

/// Why an operation was refused. Every failure leaves the registry exactly
/// as it was before the call.
#[derive(Clone, Copy, PartialEq, Eq, Structural, Debug)]
pub enum Error {
    /// The caller's identity could not be verified.
    Unauthenticated,
    /// `create_claim` on a fingerprint that already carries a claim.
    AlreadyClaimed,
    /// `revoke_claim` on a fingerprint that carries no claim.
    NoSuchClaim,
    /// `revoke_claim` by an account that does not own the claim.
    NotClaimOwner,
}

/// The identity verifier's contract: a signed origin yields its account,
/// an anonymous one is refused.
pub open spec fn signer_of(origin: Origin) -> Result<AccountId, Error> {
    match origin {
        Origin::Signed(who) => Ok(who),
        Origin::Unsigned => Err(Error::Unauthenticated),
    }
}

/// Accept a signed origin and hand back the verified signer; refuse an
/// anonymous call with `Unauthenticated`.
pub fn ensure_signed(origin: Origin) -> (r: Result<AccountId, Error>)
    ensures
        r == signer_of(origin),
{
    match origin {
        Origin::Signed(who) => Ok(who),
        Origin::Unsigned => Err(Error::Unauthenticated),
    }
}

} // verus!
