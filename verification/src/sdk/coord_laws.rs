//! What holds of leases and claims as a whole: how long they last, when nobody depends on a
//! service any more, and that all nodes name the same owner.

use vstd::prelude::*;

use super::coord::{ClaimModel, LeaseModel};

verus! {

/// A lease is live from the moment it is taken until its time has passed, and never again after:
/// at `t` it is live exactly if less than its time to live (at least a second) has passed. Left
/// out is the last second that can be represented, where the expiry would lie beyond it.
pub proof fn lease_lasts_its_ttl(service: Seq<char>, holder: Seq<char>, ttl: u64, now: u64, t: u64)
    requires
        t == u64::MAX ==> now + ttl <= u64::MAX && now < u64::MAX,
    ensures
        now < u64::MAX ==> super::coord::lease_at(service, holder, ttl, now).live(now),
        super::coord::lease_at(service, holder, ttl, now).live(t) <==> t < now + if ttl == 0 {
            1
        } else {
            ttl as int
        },
{
}

/// The same of a claim: it is live exactly while less than its time to live has passed.
pub proof fn claim_lasts_its_ttl(service: Seq<char>, owner: Seq<char>, ttl: u64, now: u64, t: u64)
    requires
        t == u64::MAX ==> now + ttl <= u64::MAX && now < u64::MAX,
    ensures
        now < u64::MAX ==> super::coord::claim_at(service, owner, ttl, now).live(now),
        super::coord::claim_at(service, owner, ttl, now).live(t) <==> t < now + if ttl == 0 {
            1
        } else {
            ttl as int
        },
{
}

/// The reference count reaches zero exactly when every lease has lapsed.
pub proof fn no_holder_means_all_lapsed(leases: Seq<LeaseModel>, now: u64)
    ensures
        super::coord::live_count(leases, now) == 0 <==> forall|i: int|
            0 <= i < leases.len() ==> !(#[trigger] leases[i]).live(now),
    decreases leases.len(),
{
    reveal(Seq::filter);
    if leases.len() > 0 {
        let front = leases.drop_last();
        no_holder_means_all_lapsed(front, now);
        assert(forall|i: int| 0 <= i < front.len() ==> #[trigger] front[i] == leases[i]);
        assert(leases[leases.len() - 1] == leases.last());
        if super::coord::live_count(front, now) == 0 && !leases.last().live(now) {
            assert forall|i: int| 0 <= i < leases.len() implies !(#[trigger] leases[i]).live(now) by {
                if i < front.len() {
                    assert(!front[i].live(now));
                }
            }
        }
        if forall|i: int| 0 <= i < leases.len() ==> !(#[trigger] leases[i]).live(now) {
            assert forall|i: int| 0 <= i < front.len() implies !(#[trigger] front[i]).live(now) by {
                assert(!leases[i].live(now));
            }
        }
    }
}

/// Without renewals the reference count never rises as time passes.
pub proof fn holders_only_lapse(leases: Seq<LeaseModel>, earlier: u64, later: u64)
    requires
        earlier <= later,
    ensures
        super::coord::live_count(leases, later) <= super::coord::live_count(leases, earlier),
    decreases leases.len(),
{
    reveal(Seq::filter);
    if leases.len() > 0 {
        holders_only_lapse(leases.drop_last(), earlier, later);
    }
}

/// Where some claim is live, one wins.
pub proof fn some_claim_wins(claims: Seq<ClaimModel>, now: u64)
    requires
        super::coord::some_live(claims, now),
    ensures
        exists|w: int| super::coord::wins(claims, now, w),
    decreases claims.len(),
{
    let front = claims.drop_last();
    let n = claims.len() - 1;
    assert(forall|i: int| 0 <= i < n ==> #[trigger] front[i] == claims[i]);
    if super::coord::some_live(front, now) {
        some_claim_wins(front, now);
        let b = choose|b: int| super::coord::wins(front, now, b);
        let x = claims[n].owner;
        let y = claims[b].owner;
        let lower = claims[n].live(now) && crate::text::text_before(x, y);
        let w = if lower {
            n
        } else {
            b
        };
        assert forall|j: int| 0 <= j < claims.len() && (#[trigger] claims[j]).live(now) implies {
            &&& !crate::text::text_before(claims[j].owner, claims[w].owner)
            &&& j < w ==> crate::text::text_before(claims[w].owner, claims[j].owner)
        } by {
            let z = claims[j].owner;
            crate::text::text_order_is_strict_and_total(x, y, z);
            crate::text::text_order_is_strict_and_total(z, x, y);
            crate::text::text_order_is_strict_and_total(y, z, y);
            if j < n {
                assert(front[j].live(now));
            }
        }
        assert(super::coord::wins(claims, now, w));
    } else {
        let i = choose|i: int| 0 <= i < claims.len() && (#[trigger] claims[i]).live(now);
        if i < n {
            assert(front[i].live(now));
        }
        crate::text::text_order_is_strict_and_total(
            claims[n].owner,
            claims[n].owner,
            claims[n].owner,
        );
        assert forall|j: int| 0 <= j < claims.len() && (#[trigger] claims[j]).live(now) implies j
            == n by {
            if j < n {
                assert(front[j].live(now));
            }
        }
        assert(super::coord::wins(claims, now, n));
    }
}

/// The owner is that of a live claim, and no live claim has a lower one; there is an owner
/// exactly if some claim is live.
pub proof fn owner_is_the_lowest_live_claimant(claims: Seq<ClaimModel>, now: u64)
    ensures
        super::coord::owner_at(claims, now) is Some <==> super::coord::some_live(claims, now),
        super::coord::owner_at(claims, now) matches Some(o) ==> {
            &&& exists|i: int|
                0 <= i < claims.len() && (#[trigger] claims[i]).live(now) && claims[i].owner == o
            &&& forall|i: int|
                0 <= i < claims.len() && (#[trigger] claims[i]).live(now) ==> claims[i].owner == o
                    || crate::text::text_before(o, claims[i].owner)
        },
{
    if super::coord::some_live(claims, now) {
        some_claim_wins(claims, now);
        let w = choose|w: int| super::coord::wins(claims, now, w);
        assert(claims[w].live(now));
        assert forall|i: int| 0 <= i < claims.len() && (#[trigger] claims[i]).live(now) implies claims[i].owner
            == claims[w].owner || crate::text::text_before(claims[w].owner, claims[i].owner) by {
            crate::text::text_order_is_strict_and_total(
                claims[i].owner,
                claims[w].owner,
                claims[i].owner,
            );
        }
    }
}

/// An owner that renews its claim stays the owner: no other claim comes to win by it. And one that
/// stops is succeeded: once its claim has lapsed, it owns nothing.
pub proof fn a_renewed_claim_keeps_its_owner(
    claims: Seq<ClaimModel>,
    service: Seq<char>,
    owner: Seq<char>,
    ttl: u64,
    now: u64,
)
    requires
        super::coord::owner_at(claims, now) == Some(owner),
        now < u64::MAX,
    ensures
        super::coord::owner_at(
            super::registry::claims_with(
                claims,
                super::coord::claim_at(service, owner, ttl, now),
            ),
            now,
        ) == Some(owner),
        forall|later: u64|
            (forall|i: int|
                0 <= i < claims.len() && (#[trigger] claims[i]).owner == owner
                    ==> !claims[i].live(later)) ==> #[trigger] super::coord::owner_at(claims, later)
                != Some(owner),
{
    let claim = super::coord::claim_at(service, owner, ttl, now);
    let after = super::registry::claims_with(claims, claim);
    super::registry::put_claim_is_read_back(claims, claim);
    owner_is_the_lowest_live_claimant(claims, now);
    owner_is_the_lowest_live_claimant(after, now);
    assert(after[after.len() - 1] == claim);
    assert(claim.live(now));
    let o = super::coord::owner_at(after, now)->Some_0;
    let i = choose|i: int| 0 <= i < after.len() && (#[trigger] after[i]).live(now) && after[i].owner == o;
    assert(after.contains(after[i]));
    if after[i] != claim {
        let n = choose|n: int| 0 <= n < claims.len() && claims[n] == after[i];
        assert(claims[n].live(now));
        crate::text::text_order_is_strict_and_total(o, owner, o);
    }
    assert forall|later: u64|
        (forall|i: int|
            0 <= i < claims.len() && (#[trigger] claims[i]).owner == owner ==> !claims[i].live(later))
        implies #[trigger] super::coord::owner_at(claims, later) != Some(owner) by {
        owner_is_the_lowest_live_claimant(claims, later);
    }
}

/// Nodes that hold the same live claims name the same owner, in whatever order they hold them and
/// whatever lapsed claims they still keep.
pub proof fn nodes_agree_on_the_owner(a: Seq<ClaimModel>, b: Seq<ClaimModel>, now: u64)
    requires
        forall|c: ClaimModel| c.live(now) ==> (#[trigger] a.contains(c) <==> b.contains(c)),
    ensures
        super::coord::owner_at(a, now) == super::coord::owner_at(b, now),
{
    owner_is_the_lowest_live_claimant(a, now);
    owner_is_the_lowest_live_claimant(b, now);
    if super::coord::some_live(a, now) {
        let i = choose|i: int|
            0 <= i < a.len() && (#[trigger] a[i]).live(now) && a[i].owner == super::coord::owner_at(
                a,
                now,
            )->Some_0;
        assert(a.contains(a[i]));
        let x = choose|x: int| 0 <= x < b.len() && b[x] == a[i];
        assert(b[x].live(now));
        let j = choose|j: int|
            0 <= j < b.len() && (#[trigger] b[j]).live(now) && b[j].owner == super::coord::owner_at(
                b,
                now,
            )->Some_0;
        assert(b.contains(b[j]));
        assert(a.contains(b[j]));
        let y = choose|y: int| 0 <= y < a.len() && a[y] == b[j];
        assert(a[y].live(now));
        crate::text::text_order_is_strict_and_total(a[i].owner, b[j].owner, a[i].owner);
    } else if super::coord::some_live(b, now) {
        let j = choose|j: int| 0 <= j < b.len() && (#[trigger] b[j]).live(now);
        assert(b.contains(b[j]));
        assert(a.contains(b[j]));
        let y = choose|y: int| 0 <= y < a.len() && a[y] == b[j];
        assert(a[y].live(now));
    }
}

/// A lease says what is leased, and by whom; and it lapses later the longer it lasts, never before
/// it was taken.
pub proof fn a_lease_names_its_service_and_holder(
    service: Seq<char>,
    holder: Seq<char>,
    ttl: u64,
    longer: u64,
    now: u64,
)
    requires
        ttl <= longer,
    ensures
        super::coord::lease_at(service, holder, ttl, now).service == service,
        super::coord::lease_at(service, holder, ttl, now).holder == holder,
        super::coord::lease_at(service, holder, ttl, now).expires_at >= now,
        super::coord::lease_at(service, holder, ttl, now).expires_at <= super::coord::lease_at(
            service,
            holder,
            longer,
            now,
        ).expires_at,
        super::coord::claim_at(service, holder, ttl, now).service == service,
        super::coord::claim_at(service, holder, ttl, now).owner == holder,
        super::coord::claim_at(service, holder, ttl, now).expires_at == super::coord::lease_at(
            service,
            holder,
            ttl,
            now,
        ).expires_at,
{
}

/// One more lease adds one to the reference count while it is live and nothing after; no lease
/// counts for nothing.
pub proof fn each_live_lease_counts_once(leases: Seq<LeaseModel>, l: LeaseModel, now: u64)
    ensures
        super::coord::live_count(Seq::empty(), now) == 0,
        now < l.expires_at ==> super::coord::live_count(leases.push(l), now)
            == super::coord::live_count(leases, now) + 1,
        now >= l.expires_at ==> super::coord::live_count(leases.push(l), now)
            == super::coord::live_count(leases, now),
{
    reveal(Seq::filter);
    assert(leases.push(l).drop_last() =~= leases);
}

/// The claim that wins is the first of its owner that has not lapsed.
pub proof fn the_winning_claim_is_the_first_of_its_owner(
    claims: Seq<ClaimModel>,
    now: u64,
    w: int,
)
    requires
        super::coord::wins(claims, now, w),
    ensures
        0 <= w < claims.len(),
        now < claims[w].expires_at,
        super::coord::owner_at(claims, now) == Some(claims[w].owner),
        forall|j: int|
            0 <= j < w && now < (#[trigger] claims[j]).expires_at ==> claims[j].owner
                != claims[w].owner,
{
    assert(claims[w].live(now));
    let v = choose|v: int| super::coord::wins(claims, now, v);
    super::coord::winner_is_unique(claims, now, v, w);
    assert forall|j: int| 0 <= j < w && now < (#[trigger] claims[j]).expires_at implies claims[j].owner
        != claims[w].owner by {
        assert(claims[j].live(now));
        crate::text::text_order_is_strict_and_total(
            claims[w].owner,
            claims[j].owner,
            claims[w].owner,
        );
    }
}

/// Who owns a singleton: the node of a claim that has not lapsed, where no such claim has a lower
/// node id; and nobody if and only if every claim has lapsed.
pub proof fn who_owns_a_singleton(claims: Seq<ClaimModel>, now: u64, o: Seq<char>)
    ensures
        super::coord::owner_at(claims, now) == Some(o) <==> {
            &&& exists|i: int|
                0 <= i < claims.len() && now < (#[trigger] claims[i]).expires_at && claims[i].owner
                    == o
            &&& forall|i: int|
                0 <= i < claims.len() && now < (#[trigger] claims[i]).expires_at
                    ==> !crate::text::text_before(claims[i].owner, o)
        },
        super::coord::owner_at(claims, now) is None <==> forall|i: int|
            0 <= i < claims.len() ==> now >= (#[trigger] claims[i]).expires_at,
{
    owner_is_the_lowest_live_claimant(claims, now);
    assert forall|i: int| 0 <= i < claims.len() implies (now < (#[trigger] claims[i]).expires_at
        <==> claims[i].live(now)) by {}
    if super::coord::owner_at(claims, now) is Some {
        let p = super::coord::owner_at(claims, now)->Some_0;
        let w = choose|i: int|
            0 <= i < claims.len() && (#[trigger] claims[i]).live(now) && claims[i].owner == p;
        assert(now < claims[w].expires_at);
        crate::text::text_order_is_strict_and_total(p, o, p);
        crate::text::text_order_is_strict_and_total(o, p, o);
        assert forall|i: int| 0 <= i < claims.len() && now < (#[trigger] claims[i]).expires_at implies !crate::text::text_before(
            claims[i].owner,
            p,
        ) by {
            assert(claims[i].live(now));
            crate::text::text_order_is_strict_and_total(p, claims[i].owner, p);
        }
        if exists|i: int|
            0 <= i < claims.len() && now < (#[trigger] claims[i]).expires_at && claims[i].owner == o {
            let i = choose|i: int|
                0 <= i < claims.len() && now < (#[trigger] claims[i]).expires_at && claims[i].owner
                    == o;
            assert(claims[i].live(now));
        }
    }
    if super::coord::some_live(claims, now) {
        let i = choose|i: int| 0 <= i < claims.len() && (#[trigger] claims[i]).live(now);
        assert(now < claims[i].expires_at);
    }
}

} // verus!
