use vstd::prelude::*;

use crate::model::{
    create_emit,
    create_next,
    create_outcome,
    revoke_emit,
    revoke_next,
    revoke_outcome,
};
use crate::types::{ClaimRecord, Error, Event, Fingerprint, Origin, ensure_signed};

verus! {

/// The claim registry: the authoritative map from fingerprint to claim
/// record, together with the log of notifications it has emitted. The map
/// is held as an association list with pairwise-distinct keys.
pub struct Pallet {
    claims: Vec<(Fingerprint, ClaimRecord)>,
    events: Vec<Event>,
}

/// The map denoted by an association list: each entry binds its key, later
/// entries taking precedence (the registry keeps keys distinct, so no entry
/// ever shadows another).
spec fn map_of(entries: Seq<(Fingerprint, ClaimRecord)>) -> Map<Fingerprint, ClaimRecord>
    decreases entries.len(),
{
    if entries.len() == 0 {
        Map::empty()
    } else {
        map_of(entries.drop_last()).insert(entries.last().0, entries.last().1)
    }
}

/// No two entries of the list bind the same fingerprint.
spec fn unique_keys(entries: Seq<(Fingerprint, ClaimRecord)>) -> bool {
    forall|i: int, j: int|
        0 <= i < j < entries.len() ==> (#[trigger] entries[i]).0 != (#[trigger] entries[j]).0
}

/// A fingerprint is in the denoted map exactly when some entry binds it.
proof fn lemma_map_of_contains(entries: Seq<(Fingerprint, ClaimRecord)>, f: Fingerprint)
    ensures
        map_of(entries).contains_key(f) <==> exists|i: int|
            0 <= i < entries.len() && (#[trigger] entries[i]).0 == f,
    decreases entries.len(),
{
    if entries.len() > 0 {
        lemma_map_of_contains(entries.drop_last(), f);
        let prior = entries.drop_last();
        if entries.last().0 == f {
            assert(entries[entries.len() - 1].0 == f);
        } else {
            if map_of(entries).contains_key(f) {
                let i = choose|i: int| 0 <= i < prior.len() && (#[trigger] prior[i]).0 == f;
                assert(entries[i].0 == f);
            }
            if exists|i: int| 0 <= i < entries.len() && (#[trigger] entries[i]).0 == f {
                let i = choose|i: int| 0 <= i < entries.len() && (#[trigger] entries[i]).0 == f;
                assert(prior[i].0 == f);
            }
        }
    }
}

/// With distinct keys, the entry that binds a fingerprint gives its value
/// in the denoted map.
proof fn lemma_map_of_index(entries: Seq<(Fingerprint, ClaimRecord)>, i: int)
    requires
        unique_keys(entries),
        0 <= i < entries.len(),
    ensures
        map_of(entries).contains_key(entries[i].0),
        map_of(entries)[entries[i].0] == entries[i].1,
    decreases entries.len(),
{
    if i < entries.len() - 1 {
        let prior = entries.drop_last();
        assert(unique_keys(prior)) by {
            assert(forall|k: int| 0 <= k < prior.len() ==> prior[k] == entries[k]);
        }
        lemma_map_of_index(prior, i);
        assert(entries[i].0 != entries.last().0);
    }
}

/// With distinct keys, removing an entry from the list removes exactly its
/// binding from the denoted map, and keeps the keys distinct.
proof fn lemma_map_of_remove(entries: Seq<(Fingerprint, ClaimRecord)>, i: int)
    requires
        unique_keys(entries),
        0 <= i < entries.len(),
    ensures
        unique_keys(entries.remove(i)),
        map_of(entries.remove(i)) == map_of(entries).remove(entries[i].0),
{
    let rest = entries.remove(i);
    let k = entries[i].0;
    entries.remove_ensures(i);
    assert forall|p: int, q: int| 0 <= p < q < rest.len() implies (#[trigger] rest[p]).0 != (
    #[trigger] rest[q]).0 by {
        let p0 = if p < i { p } else { p + 1 };
        let q0 = if q < i { q } else { q + 1 };
        assert(rest[p] == entries[p0] && rest[q] == entries[q0]);
    }
    assert forall|f: Fingerprint| #[trigger]
        map_of(rest).contains_key(f) implies map_of(entries).remove(k).contains_key(f) && map_of(
        rest,
    )[f] == map_of(entries).remove(k)[f] by {
        lemma_map_of_contains(rest, f);
        let j = choose|j: int| 0 <= j < rest.len() && (#[trigger] rest[j]).0 == f;
        let j0 = if j < i { j } else { j + 1 };
        assert(entries[j0] == rest[j]);
        lemma_map_of_index(rest, j);
        lemma_map_of_index(entries, j0);
        assert(f != k);
    }
    assert forall|f: Fingerprint| #[trigger]
        map_of(entries).remove(k).contains_key(f) implies map_of(rest).contains_key(f) by {
        lemma_map_of_contains(entries, f);
        let j0 = choose|j0: int| 0 <= j0 < entries.len() && (#[trigger] entries[j0]).0 == f;
        assert(j0 != i);
        let j = if j0 < i { j0 } else { j0 - 1 };
        assert(rest[j] == entries[j0]);
        lemma_map_of_contains(rest, f);
    }
    assert(map_of(rest) =~= map_of(entries).remove(k));
}

impl Pallet {
    /// The registry's contents, as the map the contracts speak of.
    pub closed spec fn claims(&self) -> Map<Fingerprint, ClaimRecord> {
        map_of(self.claims@)
    }

    /// Every notification emitted so far, oldest first.
    pub closed spec fn events(&self) -> Seq<Event> {
        self.events@
    }

    /// The representation invariant: at most one entry per fingerprint.
    pub closed spec fn wf(&self) -> bool {
        unique_keys(self.claims@)
    }

    /// An empty registry: nothing claimed, nothing emitted.
    pub fn new() -> (r: Pallet)
        ensures
            r.wf(),
            r.claims() == Map::<Fingerprint, ClaimRecord>::empty(),
            r.events() == Seq::<Event>::empty(),
    {
        Pallet { claims: Vec::new(), events: Vec::new() }
    }

    /// The index of the entry that binds `claim`, if one does.
    fn find(&self, claim: &Fingerprint) -> (r: Option<usize>)
        ensures
            match r {
                Some(i) => i < self.claims@.len() && self.claims@[i as int].0 == *claim,
                None => forall|j: int| 0 <= j < self.claims@.len()
                    ==> (#[trigger] self.claims@[j]).0 != *claim,
            },
    {
        let n = self.claims.len();
        let mut i: usize = 0;
        while i < n
            invariant
                i <= n,
                n == self.claims@.len(),
                forall|j: int| 0 <= j < i ==> (#[trigger] self.claims@[j]).0 != *claim,
            decreases n - i,
        {
            if self.claims[i].0 == *claim {
                return Some(i);
            }
            i = i + 1;
        }
        None
    }

    /// Look a fingerprint up: the stored record if it is claimed, `None`
    /// if it is not.
    pub fn get_claim(&self, claim: &Fingerprint) -> (r: Option<ClaimRecord>)
        requires
            self.wf(),
        ensures
            r == (if self.claims().contains_key(*claim) {
                Some(self.claims()[*claim])
            } else {
                None::<ClaimRecord>
            }),
    {
        proof {
            lemma_map_of_contains(self.claims@, *claim);
        }
        match self.find(claim) {
            Some(i) => {
                proof {
                    lemma_map_of_index(self.claims@, i as int);
                }
                Some(self.claims[i].1)
            },
            None => None,
        }
    }

    /// Claim a fingerprint for the signing caller, stamped with the logical
    /// clock value `now`. A single atomic check-then-insert: it fails with
    /// `AlreadyClaimed` if the fingerprint already carries a claim (whoever
    /// owns it), and on success records the caller as owner and emits a
    /// `ClaimCreated` notification. Every failure leaves the registry
    /// untouched.
    pub fn create_claim(&mut self, origin: Origin, claim: Fingerprint, now: u64) -> (r: Result<
        (),
        Error,
    >)
        requires
            old(self).wf(),
        ensures
            final(self).wf(),
            r == create_outcome(old(self).claims(), origin, claim),
            final(self).claims() == create_next(old(self).claims(), origin, claim, now),
            final(self).events() == create_emit(
                old(self).events(),
                old(self).claims(),
                origin,
                claim,
            ),
    {
        let sender = match ensure_signed(origin) {
            Ok(who) => who,
            Err(e) => {
                return Err(e);
            },
        };
        proof {
            lemma_map_of_contains(self.claims@, claim);
        }
        if self.find(&claim).is_some() {
            return Err(Error::AlreadyClaimed);
        }
        let record = ClaimRecord { owner: sender, registered_at: now };
        self.claims.push((claim, record));
        self.events.push(Event::ClaimCreated { who: sender, claim });
        proof {
            let entries = self.claims@;
            assert(entries.drop_last() =~= old(self).claims@);
            assert(unique_keys(entries)) by {
                assert(forall|j: int| 0 <= j < entries.len() - 1
                    ==> (#[trigger] entries[j]).0 != claim);
            }
        }
        Ok(())
    }

    /// Revoke the claim on a fingerprint. Only the claim's own creator may
    /// revoke it: an absent fingerprint fails with `NoSuchClaim`, a caller
    /// other than the owner fails with `NotClaimOwner` (learning nothing but
    /// that mismatch), and the owner's call removes the record and emits a
    /// `ClaimRevoked` notification. Every failure leaves the registry
    /// untouched.
    pub fn revoke_claim(&mut self, origin: Origin, claim: Fingerprint) -> (r: Result<(), Error>)
        requires
            old(self).wf(),
        ensures
            final(self).wf(),
            r == revoke_outcome(old(self).claims(), origin, claim),
            final(self).claims() == revoke_next(old(self).claims(), origin, claim),
            final(self).events() == revoke_emit(
                old(self).events(),
                old(self).claims(),
                origin,
                claim,
            ),
    {
        let sender = match ensure_signed(origin) {
            Ok(who) => who,
            Err(e) => {
                return Err(e);
            },
        };
        proof {
            lemma_map_of_contains(self.claims@, claim);
        }
        let idx = match self.find(&claim) {
            Some(i) => i,
            None => {
                return Err(Error::NoSuchClaim);
            },
        };
        proof {
            lemma_map_of_index(self.claims@, idx as int);
        }
        let owner = self.claims[idx].1.owner;
        if owner != sender {
            return Err(Error::NotClaimOwner);
        }
        self.claims.remove(idx);
        self.events.push(Event::ClaimRevoked { who: sender, claim });
        proof {
            lemma_map_of_remove(old(self).claims@, idx as int);
        }
        Ok(())
    }

    /// Whether a fingerprint currently carries a claim.
    pub fn is_claimed(&self, claim: &Fingerprint) -> (r: bool)
        ensures
            r == self.claims().contains_key(*claim),
    {
        proof {
            lemma_map_of_contains(self.claims@, *claim);
        }
        self.find(claim).is_some()
    }

    /// The notifications emitted so far, oldest first.
    pub fn event_log(&self) -> (r: &Vec<Event>)
        ensures
            r@ == self.events(),
    {
        &self.events
    }
}

} // verus!
