//! The registry: where leases and claims live.
//!
//! [`Registry`] is the seam for storage backends; [`MemRegistry`] is the in-process one, for a
//! single node. Records are upserted: a holder has at most one lease on a service, an owner at
//! most one claim.

use vstd::hash_map::StringHashMap;
use vstd::prelude::*;
use vstd::string::*;

use super::coord::{Claim, ClaimModel, Lease, LeaseModel};
use crate::text::same;

verus! {

/// The leases without those of `holder`.
pub open spec fn leases_without(leases: Seq<LeaseModel>, holder: Seq<char>) -> Seq<LeaseModel> {
    leases.filter(|l: LeaseModel| l.holder != holder)
}

/// The leases with `lease` in place of any other of its holder, at the end.
pub open spec fn leases_with(leases: Seq<LeaseModel>, lease: LeaseModel) -> Seq<LeaseModel> {
    leases_without(leases, lease.holder).push(lease)
}

/// The claims with `claim` in place of any other of its owner, at the end.
pub open spec fn claims_with(claims: Seq<ClaimModel>, claim: ClaimModel) -> Seq<ClaimModel> {
    claims.filter(|c: ClaimModel| c.owner != claim.owner).push(claim)
}

/// Where leases and claims are stored. A call may fail, and says so with a text; what it does
/// where it succeeds is stated over the records of each service.
pub trait Registry: Sized {
    /// The leases recorded for `service`, the most recently written last.
    spec fn leases_on(&self, service: Seq<char>) -> Seq<LeaseModel>;

    /// The claims recorded for `service`, the most recently written last.
    spec fn claims_on(&self, service: Seq<char>) -> Seq<ClaimModel>;

    /// Records or refreshes a lease: an upsert by service and holder.
    fn put_lease(&mut self, lease: Lease) -> (r: Result<(), String>)
        ensures
            r is Ok ==> forall|s: Seq<char>|
                {
                    &&& #[trigger] final(self).leases_on(s) == if s == lease@.service {
                        leases_with(old(self).leases_on(s), lease@)
                    } else {
                        old(self).leases_on(s)
                    }
                },
            r is Ok ==> forall|s: Seq<char>| #[trigger]
                final(self).claims_on(s) == old(self).claims_on(s),
    ;

    /// Drops the holder's lease on `service`.
    fn drop_lease(&mut self, service: &str, holder: &str) -> (r: Result<(), String>)
        ensures
            r is Ok ==> forall|s: Seq<char>|
                {
                    &&& #[trigger] final(self).leases_on(s) == if s == service@ {
                        leases_without(old(self).leases_on(s), holder@)
                    } else {
                        old(self).leases_on(s)
                    }
                },
            r is Ok ==> forall|s: Seq<char>| #[trigger]
                final(self).claims_on(s) == old(self).claims_on(s),
    ;

    /// All leases recorded for `service`, lapsed ones among them.
    fn leases(&self, service: &str) -> (r: Result<Vec<Lease>, String>)
        ensures
            r matches Ok(v) ==> super::coord::lease_models(v@) == self.leases_on(service@),
    ;

    /// Records or refreshes a claim: an upsert by service and owner.
    fn put_claim(&mut self, claim: Claim) -> (r: Result<(), String>)
        ensures
            r is Ok ==> forall|s: Seq<char>|
                {
                    &&& #[trigger] final(self).claims_on(s) == if s == claim@.service {
                        claims_with(old(self).claims_on(s), claim@)
                    } else {
                        old(self).claims_on(s)
                    }
                },
            r is Ok ==> forall|s: Seq<char>| #[trigger]
                final(self).leases_on(s) == old(self).leases_on(s),
    ;

    /// All claims recorded for `service`, lapsed ones among them.
    fn claims(&self, service: &str) -> (r: Result<Vec<Claim>, String>)
        ensures
            r matches Ok(v) ==> super::coord::claim_models(v@) == self.claims_on(service@),
    ;
}

/// The in-process registry. It is one value with one owner; tasks that share it do so behind a
/// lock of their own.
pub struct MemRegistry {
    leases: StringHashMap<Vec<Lease>>,
    claims: StringHashMap<Vec<Claim>>,
}

impl MemRegistry {
    /// An empty registry.
    pub fn new() -> (r: MemRegistry)
        ensures
            forall|s: Seq<char>| #[trigger] r.leases_on(s) == Seq::<LeaseModel>::empty(),
            forall|s: Seq<char>| #[trigger] r.claims_on(s) == Seq::<ClaimModel>::empty(),
    {
        MemRegistry { leases: StringHashMap::new(), claims: StringHashMap::new() }
    }
}

impl Default for MemRegistry {
    fn default() -> (r: MemRegistry)
        ensures
            forall|s: Seq<char>| #[trigger] r.leases_on(s) == Seq::<LeaseModel>::empty(),
            forall|s: Seq<char>| #[trigger] r.claims_on(s) == Seq::<ClaimModel>::empty(),
    {
        MemRegistry::new()
    }
}

impl Registry for MemRegistry {
    closed spec fn leases_on(&self, service: Seq<char>) -> Seq<LeaseModel> {
        if self.leases@.contains_key(service) {
            super::coord::lease_models(self.leases@[service]@)
        } else {
            Seq::empty()
        }
    }

    closed spec fn claims_on(&self, service: Seq<char>) -> Seq<ClaimModel> {
        if self.claims@.contains_key(service) {
            super::coord::claim_models(self.claims@[service]@)
        } else {
            Seq::empty()
        }
    }

    fn put_lease(&mut self, lease: Lease) -> (r: Result<(), String>)
        ensures
            r is Ok,
    {
        let service: String = lease.service.clone();
        let mut v: Vec<Lease> = self.others(service.as_str(), lease.holder.as_str());
        let ghost kept = super::coord::lease_models(v@);
        v.push(lease);
        assert(super::coord::lease_models(v@) =~= kept.push(lease@));
        self.leases.insert(service, v);
        Ok(())
    }

    fn drop_lease(&mut self, service: &str, holder: &str) -> (r: Result<(), String>)
        ensures
            r is Ok,
    {
        if self.leases.contains_key(service) {
            let v: Vec<Lease> = self.others(service, holder);
            self.leases.insert(service.to_owned(), v);
        } else {
            proof {
                reveal(Seq::filter);
            }
        }
        Ok(())
    }

    fn leases(&self, service: &str) -> (r: Result<Vec<Lease>, String>)
        ensures
            r is Ok,
    {
        let mut v: Vec<Lease> = Vec::new();
        if let Some(all) = self.leases.get(service) {
            for i in 0..all.len()
                invariant
                    v.len() == i,
                    forall|j: int| 0 <= j < i ==> v@[j]@ == all@[j]@,
            {
                v.push(all[i].clone());
            }
        }
        assert(super::coord::lease_models(v@) =~= self.leases_on(service@));
        Ok(v)
    }

    fn put_claim(&mut self, claim: Claim) -> (r: Result<(), String>)
        ensures
            r is Ok,
    {
        let service: String = claim.service.clone();
        let mut v: Vec<Claim> = self.rivals(service.as_str(), claim.owner.as_str());
        let ghost kept = super::coord::claim_models(v@);
        v.push(claim);
        assert(super::coord::claim_models(v@) =~= kept.push(claim@));
        self.claims.insert(service, v);
        Ok(())
    }

    fn claims(&self, service: &str) -> (r: Result<Vec<Claim>, String>)
        ensures
            r is Ok,
    {
        let mut v: Vec<Claim> = Vec::new();
        if let Some(all) = self.claims.get(service) {
            for i in 0..all.len()
                invariant
                    v.len() == i,
                    forall|j: int| 0 <= j < i ==> v@[j]@ == all@[j]@,
            {
                v.push(all[i].clone());
            }
        }
        assert(super::coord::claim_models(v@) =~= self.claims_on(service@));
        Ok(v)
    }
}

impl MemRegistry {
    /// The leases on `service` that are not those of `holder`.
    fn others(&self, service: &str, holder: &str) -> (v: Vec<Lease>)
        ensures
            super::coord::lease_models(v@) == leases_without(self.leases_on(service@), holder@),
    {
        let mut v: Vec<Lease> = Vec::new();
        let ghost here = self.leases_on(service@);
        let ghost other = |l: LeaseModel| l.holder != holder@;
        proof {
            reveal(Seq::filter);
            assert(here.take(0) =~= Seq::<LeaseModel>::empty());
            assert(super::coord::lease_models(v@) =~= Seq::<LeaseModel>::empty());
        }
        if let Some(all) = self.leases.get(service) {
            for i in 0..all.len()
                invariant
                    here == super::coord::lease_models(all@),
                    other == (|l: LeaseModel| l.holder != holder@),
                    super::coord::lease_models(v@) == here.take(i as int).filter(other),
            {
                proof {
                    reveal(Seq::filter);
                    assert(here.take(i + 1).drop_last() =~= here.take(i as int));
                    assert(here.take(i + 1).last() == all@[i as int]@);
                }
                let ghost kept = super::coord::lease_models(v@);
                if !same(all[i].holder.as_str(), holder) {
                    v.push(all[i].clone());
                    assert(super::coord::lease_models(v@) =~= kept.push(all@[i as int]@));
                }
            }
            assert(here.take(all.len() as int) =~= here);
        }
        v
    }

    /// The claims on `service` that are not those of `owner`.
    fn rivals(&self, service: &str, owner: &str) -> (v: Vec<Claim>)
        ensures
            super::coord::claim_models(v@) == self.claims_on(service@).filter(
                |c: ClaimModel| c.owner != owner@,
            ),
    {
        let mut v: Vec<Claim> = Vec::new();
        let ghost here = self.claims_on(service@);
        let ghost rival = |c: ClaimModel| c.owner != owner@;
        proof {
            reveal(Seq::filter);
            assert(here.take(0) =~= Seq::<ClaimModel>::empty());
            assert(super::coord::claim_models(v@) =~= Seq::<ClaimModel>::empty());
        }
        if let Some(all) = self.claims.get(service) {
            for i in 0..all.len()
                invariant
                    here == super::coord::claim_models(all@),
                    rival == (|c: ClaimModel| c.owner != owner@),
                    super::coord::claim_models(v@) == here.take(i as int).filter(rival),
            {
                proof {
                    reveal(Seq::filter);
                    assert(here.take(i + 1).drop_last() =~= here.take(i as int));
                    assert(here.take(i + 1).last() == all@[i as int]@);
                }
                let ghost kept = super::coord::claim_models(v@);
                if !same(all[i].owner.as_str(), owner) {
                    v.push(all[i].clone());
                    assert(super::coord::claim_models(v@) =~= kept.push(all@[i as int]@));
                }
            }
            assert(here.take(all.len() as int) =~= here);
        }
        v
    }
}

/// No key occurs twice.
pub open spec fn one_per_key<T, K>(s: Seq<T>, key: spec_fn(T) -> K) -> bool {
    forall|i: int, j: int| 0 <= i < j < s.len() ==> key(#[trigger] s[i]) != key(#[trigger] s[j])
}

/// Every holder has at most one of the leases.
pub open spec fn one_per_holder(leases: Seq<LeaseModel>) -> bool {
    one_per_key(leases, |l: LeaseModel| l.holder)
}

/// Every owner has at most one of the claims.
pub open spec fn one_per_owner(claims: Seq<ClaimModel>) -> bool {
    one_per_key(claims, |c: ClaimModel| c.owner)
}

/// The items with any other key than `k`: which they are, and that no key comes to occur twice;
/// and the same with an item of that key put at the end.
proof fn lemma_upsert<T, K>(s: Seq<T>, key: spec_fn(T) -> K, k: K, other: spec_fn(T) -> bool)
    requires
        forall|x: T| #[trigger] other(x) <==> key(x) != k,
    ensures
        forall|x: T| #[trigger] s.filter(other).contains(x) <==> s.contains(x) && key(x) != k,
        one_per_key(s, key) ==> one_per_key(s.filter(other), key),
        forall|x: T, y: T|
            key(x) == k ==> (#[trigger] s.filter(other).push(x).contains(y) <==> y == x || (
            s.contains(y) && key(y) != k)),
        forall|x: T|
            key(x) == k && one_per_key(s, key) ==> one_per_key(
                #[trigger] s.filter(other).push(x),
                key,
            ),
    decreases s.len(),
{
    reveal(Seq::filter);
    let rest = s.filter(other);
    if s.len() > 0 {
        let front = s.drop_last();
        let kept = front.filter(other);
        lemma_upsert(front, key, k, other);
        assert(s =~= front.push(s.last()));
        assert forall|x: T| s.contains(x) <==> front.contains(x) || x == s.last() by {
            lemma_push_contains(front, s.last(), x);
        }
        assert forall|x: T| #[trigger] rest.contains(x) <==> s.contains(x) && key(x) != k by {
            assert(kept.contains(x) <==> front.contains(x) && key(x) != k);
            if other(s.last()) {
                lemma_push_contains(kept, s.last(), x);
            }
        }
        if one_per_key(s, key) {
            assert(forall|i: int| 0 <= i < front.len() ==> #[trigger] front[i] == s[i]);
            assert(one_per_key(front, key));
            if other(s.last()) {
                assert forall|i: int| 0 <= i < kept.len() implies key(#[trigger] kept[i]) != key(
                    s.last(),
                ) by {
                    assert(kept.contains(kept[i]));
                    let n = choose|n: int| 0 <= n < front.len() && front[n] == kept[i];
                    assert(key(s[n]) != key(s[s.len() - 1]));
                }
                lemma_push_one_per_key(kept, key, s.last());
            }
        }
    }
    assert forall|x: T, y: T| key(x) == k implies (#[trigger] rest.push(x).contains(y) <==> y == x
        || (s.contains(y) && key(y) != k)) by {
        lemma_push_contains(rest, x, y);
        assert(rest.contains(y) <==> s.contains(y) && key(y) != k);
    }
    assert forall|x: T| key(x) == k && one_per_key(s, key) implies one_per_key(
        #[trigger] rest.push(x),
        key,
    ) by {
        assert forall|i: int| 0 <= i < rest.len() implies key(#[trigger] rest[i]) != key(x) by {
            assert(rest.contains(rest[i]));
        }
        lemma_push_one_per_key(rest, key, x);
    }
}

proof fn lemma_push_contains<T>(s: Seq<T>, last: T, x: T)
    ensures
        s.push(last).contains(x) <==> s.contains(x) || x == last,
{
    let more = s.push(last);
    if s.contains(x) {
        let n = choose|n: int| 0 <= n < s.len() && s[n] == x;
        assert(more[n] == x);
    }
    if more.contains(x) && x != last {
        let n = choose|n: int| 0 <= n < more.len() && more[n] == x;
        assert(s[n] == x);
    }
    assert(more[more.len() - 1] == last);
}

proof fn lemma_push_one_per_key<T, K>(s: Seq<T>, key: spec_fn(T) -> K, last: T)
    requires
        one_per_key(s, key),
        forall|i: int| 0 <= i < s.len() ==> key(#[trigger] s[i]) != key(last),
    ensures
        one_per_key(s.push(last), key),
{
    let more = s.push(last);
    assert forall|i: int, j: int| 0 <= i < j < more.len() implies key(#[trigger] more[i]) != key(
        #[trigger] more[j],
    ) by {
        assert(more[i] == s[i]);
        if j < s.len() {
            assert(more[j] == s[j]);
        }
    }
}

/// A lease written is read back: after a put the holder's lease is the one put, and the leases of
/// everyone else are as they were.
pub proof fn put_lease_is_read_back(leases: Seq<LeaseModel>, lease: LeaseModel)
    ensures
        leases_with(leases, lease).last() == lease,
        forall|l: LeaseModel| #[trigger]
            leases_with(leases, lease).contains(l) <==> l == lease || (leases.contains(l) && l.holder
                != lease.holder),
{
    lemma_upsert(
        leases,
        |l: LeaseModel| l.holder,
        lease.holder,
        |l: LeaseModel| l.holder != lease.holder,
    );
}

/// Puts and drops keep the registry's invariant: no holder has two leases on one service.
pub proof fn no_holder_is_counted_twice(
    leases: Seq<LeaseModel>,
    lease: LeaseModel,
    holder: Seq<char>,
)
    requires
        one_per_holder(leases),
    ensures
        one_per_holder(leases_with(leases, lease)),
        one_per_holder(leases_without(leases, holder)),
{
    lemma_upsert(
        leases,
        |l: LeaseModel| l.holder,
        lease.holder,
        |l: LeaseModel| l.holder != lease.holder,
    );
    lemma_upsert(leases, |l: LeaseModel| l.holder, holder, |l: LeaseModel| l.holder != holder);
}

/// A dropped lease is gone, and nobody else's is.
pub proof fn drop_lease_takes_only_the_holders(leases: Seq<LeaseModel>, holder: Seq<char>)
    ensures
        forall|l: LeaseModel| #[trigger]
            leases_without(leases, holder).contains(l) <==> leases.contains(l) && l.holder != holder,
{
    lemma_upsert(leases, |l: LeaseModel| l.holder, holder, |l: LeaseModel| l.holder != holder);
}

/// A claim written is read back, in place of any other of its owner, and the claims of everyone
/// else are as they were; no owner ever has two claims on one service.
pub proof fn put_claim_is_read_back(claims: Seq<ClaimModel>, claim: ClaimModel)
    ensures
        claims_with(claims, claim).last() == claim,
        forall|c: ClaimModel| #[trigger]
            claims_with(claims, claim).contains(c) <==> c == claim || (claims.contains(c) && c.owner
                != claim.owner),
        one_per_owner(claims) ==> one_per_owner(claims_with(claims, claim)),
{
    lemma_upsert(
        claims,
        |c: ClaimModel| c.owner,
        claim.owner,
        |c: ClaimModel| c.owner != claim.owner,
    );
}

/// Dropping goes lease by lease and keeps the order: a lease of the holder goes, any other stays
/// where it is.
pub proof fn dropping_keeps_the_order(leases: Seq<LeaseModel>, l: LeaseModel, holder: Seq<char>)
    ensures
        leases_without(Seq::empty(), holder).len() == 0,
        l.holder == holder ==> leases_without(leases.push(l), holder) == leases_without(
            leases,
            holder,
        ),
        l.holder != holder ==> leases_without(leases.push(l), holder) == leases_without(
            leases,
            holder,
        ).push(l),
{
    reveal(Seq::filter);
    assert(leases.push(l).drop_last() =~= leases);
}

/// A put drops what its holder had and adds the new lease at the end, even where it lapses sooner.
pub proof fn a_put_replaces_the_holders_lease(leases: Seq<LeaseModel>, l: LeaseModel, lease: LeaseModel)
    ensures
        leases_with(Seq::empty(), lease) == seq![lease],
        l.holder == lease.holder ==> leases_with(leases.push(l), lease) == leases_with(
            leases,
            lease,
        ),
        l.holder != lease.holder ==> leases_with(leases.push(l), lease) == leases_with(
            leases,
            lease,
        ).drop_last().push(l).push(lease),
{
    dropping_keeps_the_order(leases, l, lease.holder);
    reveal(Seq::filter);
    let kept = leases_without(leases, lease.holder);
    assert(leases_with(leases, lease).drop_last() =~= kept);
    assert(leases_with(Seq::empty(), lease) =~= seq![lease]);
}

/// The same of claims.
pub proof fn a_put_replaces_the_owners_claim(claims: Seq<ClaimModel>, c: ClaimModel, claim: ClaimModel)
    ensures
        claims_with(Seq::empty(), claim) == seq![claim],
        c.owner == claim.owner ==> claims_with(claims.push(c), claim) == claims_with(claims, claim),
        c.owner != claim.owner ==> claims_with(claims.push(c), claim) == claims_with(
            claims,
            claim,
        ).drop_last().push(c).push(claim),
{
    reveal(Seq::filter);
    assert(claims.push(c).drop_last() =~= claims);
    let kept = claims.filter(|x: ClaimModel| x.owner != claim.owner);
    assert(claims_with(claims, claim).drop_last() =~= kept);
    assert(claims_with(Seq::empty(), claim) =~= seq![claim]);
}

} // verus!
