//! Coordination rules that every node applies to the same records: leases, which count who still
//! depends on a service, and claims, which decide who owns a singleton.
//!
//! A dependent renews a lease while it needs a dependency; the dependency stays up while any live
//! lease exists. On a simultaneous double claim the lowest node id wins, so every node that sees
//! the same claims names the same owner.

use vstd::prelude::*;
use vstd::string::*;

use crate::text::before;

verus! {

/// A node id: the identity of a lease holder or of an owner.
pub type NodeId = String;

/// Calls `SystemTime::elapsed` on the Unix epoch: the time from the epoch to the system clock's
/// present, in whole seconds, or `None` where the clock stands before the epoch. Nothing is claimed
/// of the time read.
#[verifier::external_body]
fn since_epoch() -> (secs: Option<u64>) {
    std::time::UNIX_EPOCH.elapsed().ok().map(|d| d.as_secs())
}

/// Seconds for a clock reading; a clock before the epoch counts as the epoch.
pub fn secs_or_zero(reading: Option<u64>) -> (secs: u64)
    ensures
        secs == match reading {
            Some(s) => s,
            None => 0,
        },
{
    match reading {
        Some(s) => s,
        None => 0,
    }
}

/// Unix seconds now. What it returns rests on the machine's clock alone, so no more is promised.
pub fn now_secs() -> (secs: u64) {
    secs_or_zero(since_epoch())
}

/// When something that lasts `ttl` seconds from `now` lapses: at least a second later, and never
/// past the last second that can be represented.
pub open spec fn expiry(now: u64, ttl: u64) -> u64 {
    let t = now + if ttl == 0 {
        1
    } else {
        ttl as int
    };
    if t > u64::MAX {
        u64::MAX
    } else {
        t as u64
    }
}

fn expiry_of(now: u64, ttl: u64) -> (at: u64)
    ensures
        at == expiry(now, ttl),
{
    now.saturating_add(if ttl == 0 { 1 } else { ttl })
}

/// A renewable lease: `holder` depends on `service` until `expires_at`.
#[derive(Debug, PartialEq, Eq)]
pub struct Lease {
    pub service: String,
    pub holder: NodeId,
    pub expires_at: u64,
}

/// What a [`Lease`] says.
pub struct LeaseModel {
    pub service: Seq<char>,
    pub holder: Seq<char>,
    pub expires_at: u64,
}

impl View for Lease {
    type V = LeaseModel;

    open spec fn view(&self) -> LeaseModel {
        LeaseModel { service: self.service@, holder: self.holder@, expires_at: self.expires_at }
    }
}

impl Clone for Lease {
    fn clone(&self) -> (l: Lease)
        ensures
            l@ == self@,
    {
        Lease {
            service: self.service.clone(),
            holder: self.holder.clone(),
            expires_at: self.expires_at,
        }
    }
}

/// The lease on `service` by `holder` that lasts `ttl` seconds from `now`.
pub open spec fn lease_at(service: Seq<char>, holder: Seq<char>, ttl: u64, now: u64) -> LeaseModel {
    LeaseModel { service, holder, expires_at: expiry(now, ttl) }
}

impl LeaseModel {
    /// Whether the lease has not lapsed at `now`.
    pub open spec fn live(self, now: u64) -> bool {
        now < self.expires_at
    }
}

impl Lease {
    /// A lease on `service` by `holder`, valid for `ttl_secs` from `now`.
    pub fn new(service: &str, holder: &str, ttl_secs: u64, now: u64) -> (l: Lease)
        ensures
            l@ == lease_at(service@, holder@, ttl_secs, now),
    {
        Lease {
            service: service.to_owned(),
            holder: holder.to_owned(),
            expires_at: expiry_of(now, ttl_secs),
        }
    }

    /// Whether this lease has lapsed at `now`.
    pub fn expired(&self, now: u64) -> (r: bool)
        ensures
            r == !self@.live(now),
    {
        now >= self.expires_at
    }
}

/// What a sequence of leases says.
pub open spec fn lease_models(v: Seq<Lease>) -> Seq<LeaseModel> {
    Seq::new(v.len(), |i: int| v[i]@)
}

/// How many of the leases are live at `now`.
pub open spec fn live_count(leases: Seq<LeaseModel>, now: u64) -> nat {
    leases.filter(|l: LeaseModel| l.live(now)).len()
}

/// Number of live holders of a service at `now`: the distributed reference count. A dependency
/// is torn down only when this reaches zero.
pub fn live_holders(leases: &[Lease], now: u64) -> (n: usize)
    ensures
        n == live_count(lease_models(leases@), now),
{
    let mut n: usize = 0;
    let ghost all = lease_models(leases@);
    proof {
        reveal(Seq::filter);
        assert(all.take(0) =~= Seq::<LeaseModel>::empty());
    }
    for i in 0..leases.len()
        invariant
            all == lease_models(leases@),
            n == live_count(all.take(i as int), now),
            n <= i,
    {
        proof {
            reveal(Seq::filter);
            assert(all.take(i + 1).drop_last() =~= all.take(i as int));
            assert(all.take(i + 1).last() == leases@[i as int]@);
        }
        if !leases[i].expired(now) {
            n = n + 1;
        }
    }
    assert(all.take(leases.len() as int) =~= all);
    n
}

/// An ownership claim: `owner` is responsible for the singleton `service` until `expires_at`.
#[derive(Debug, PartialEq, Eq)]
pub struct Claim {
    pub service: String,
    pub owner: NodeId,
    pub expires_at: u64,
}

/// What a [`Claim`] says.
pub struct ClaimModel {
    pub service: Seq<char>,
    pub owner: Seq<char>,
    pub expires_at: u64,
}

impl View for Claim {
    type V = ClaimModel;

    open spec fn view(&self) -> ClaimModel {
        ClaimModel { service: self.service@, owner: self.owner@, expires_at: self.expires_at }
    }
}

impl Clone for Claim {
    fn clone(&self) -> (c: Claim)
        ensures
            c@ == self@,
    {
        Claim {
            service: self.service.clone(),
            owner: self.owner.clone(),
            expires_at: self.expires_at,
        }
    }
}

/// The claim on `service` by `owner` that lasts `ttl` seconds from `now`.
pub open spec fn claim_at(service: Seq<char>, owner: Seq<char>, ttl: u64, now: u64) -> ClaimModel {
    ClaimModel { service, owner, expires_at: expiry(now, ttl) }
}

impl ClaimModel {
    /// Whether the claim has not lapsed at `now`.
    pub open spec fn live(self, now: u64) -> bool {
        now < self.expires_at
    }
}

impl Claim {
    /// A claim on `service` by `owner`, valid for `ttl_secs` from `now`.
    pub fn new(service: &str, owner: &str, ttl_secs: u64, now: u64) -> (c: Claim)
        ensures
            c@ == claim_at(service@, owner@, ttl_secs, now),
    {
        Claim {
            service: service.to_owned(),
            owner: owner.to_owned(),
            expires_at: expiry_of(now, ttl_secs),
        }
    }

    /// Whether this claim has lapsed at `now`.
    pub fn expired(&self, now: u64) -> (r: bool)
        ensures
            r == !self@.live(now),
    {
        now >= self.expires_at
    }
}

/// What a sequence of claims says.
pub open spec fn claim_models(v: Seq<Claim>) -> Seq<ClaimModel> {
    Seq::new(v.len(), |i: int| v[i]@)
}

/// Whether some claim is live at `now`.
pub open spec fn some_live(claims: Seq<ClaimModel>, now: u64) -> bool {
    exists|i: int| 0 <= i < claims.len() && (#[trigger] claims[i]).live(now)
}

/// Whether the claim at `w` wins at `now`: it is live, no live claim has a lower owner, and those
/// before it have a higher one.
pub open spec fn wins(claims: Seq<ClaimModel>, now: u64, w: int) -> bool {
    &&& 0 <= w < claims.len()
    &&& claims[w].live(now)
    &&& forall|j: int|
        0 <= j < claims.len() && (#[trigger] claims[j]).live(now) ==> !crate::text::text_before(
            claims[j].owner,
            claims[w].owner,
        )
    &&& forall|j: int|
        0 <= j < w && (#[trigger] claims[j]).live(now) ==> crate::text::text_before(
            claims[w].owner,
            claims[j].owner,
        )
}

/// The owner that the claims decide on at `now`: that of the winning claim, if any is live.
pub open spec fn owner_at(claims: Seq<ClaimModel>, now: u64) -> Option<Seq<char>> {
    if some_live(claims, now) {
        Some(claims[choose|w: int| wins(claims, now, w)].owner)
    } else {
        None
    }
}

/// The owner that the claims decide on at `now`: the live claim with the lowest node id (the
/// first such claim, where several name it), or none if no claim is live.
pub fn winner(claims: &[Claim], now: u64) -> (r: Option<&Claim>)
    ensures
        match r {
            Some(c) => some_live(claim_models(claims@), now) && exists|w: int|
                wins(claim_models(claims@), now, w) && *c == #[trigger] claims@[w],
            None => !some_live(claim_models(claims@), now),
        },
        match r {
            Some(c) => owner_at(claim_models(claims@), now) == Some(c@.owner),
            None => owner_at(claim_models(claims@), now) is None,
        },
{
    let ghost all = claim_models(claims@);
    let mut best: Option<usize> = None;
    assert(all.take(0) =~= Seq::<ClaimModel>::empty());
    for i in 0..claims.len()
        invariant
            all == claim_models(claims@),
            match best {
                Some(b) => b < i && wins(all.take(i as int), now, b as int),
                None => !some_live(all.take(i as int), now),
            },
    {
        let ghost seen = all.take(i as int);
        let ghost more = all.take(i + 1);
        proof {
            assert(more[i as int] == claims@[i as int]@);
            assert forall|j: int| 0 <= j < i implies #[trigger] more[j] == seen[j] by {}
        }
        if !claims[i].expired(now) {
            match best {
                Some(b) => {
                    let lower: bool = before(claims[i].owner.as_str(), claims[b].owner.as_str());
                    proof {
                        let x = claims@[i as int]@.owner;
                        let y = claims@[b as int]@.owner;
                        assert forall|j: int| 0 <= j < more.len() && (#[trigger] more[j]).live(now) implies {
                            &&& lower ==> !crate::text::text_before(more[j].owner, x)
                            &&& !lower ==> !crate::text::text_before(more[j].owner, y)
                            &&& lower && j < i ==> crate::text::text_before(x, more[j].owner)
                        } by {
                            crate::text::text_order_is_strict_and_total(x, y, more[j].owner);
                            crate::text::text_order_is_strict_and_total(more[j].owner, x, y);
                            crate::text::text_order_is_strict_and_total(y, more[j].owner, y);
                            if j < i {
                                assert(seen[j].live(now));
                            }
                        }
                    }
                    if lower {
                        best = Some(i);
                    }
                },
                None => {
                    proof {
                        crate::text::text_order_is_strict_and_total(
                            more[i as int].owner,
                            more[i as int].owner,
                            more[i as int].owner,
                        );
                        assert forall|j: int| 0 <= j < more.len() && (#[trigger] more[j]).live(
                            now,
                        ) implies j == i by {
                            if j < i {
                                assert(seen[j].live(now));
                            }
                        }
                    }
                    best = Some(i);
                },
            }
        } else {
            proof {
                assert forall|j: int| 0 <= j < more.len() && (#[trigger] more[j]).live(now) implies j
                    < i && seen[j].live(now) by {}
            }
        }
    }
    assert(all.take(claims.len() as int) =~= all);
    match best {
        Some(b) => {
            proof {
                assert(all[b as int].live(now));
                let w = choose|w: int| wins(all, now, w);
                winner_is_unique(all, now, w, b as int);
            }
            Some(&claims[b])
        },
        None => None,
    }
}

/// At most one claim wins.
pub proof fn winner_is_unique(claims: Seq<ClaimModel>, now: u64, v: int, w: int)
    requires
        wins(claims, now, v),
        wins(claims, now, w),
    ensures
        v == w,
{
    if v < w {
        assert(claims[v].live(now));
    } else if w < v {
        assert(claims[w].live(now));
    }
}

} // verus!
