//! What holds of ensuring a dependency, over the steps taken: who may spawn, what is never done
//! twice, and that it comes to an end.

use vstd::prelude::*;

use super::coord::ClaimModel;
use super::dep::{DepModel, PlaceModel};
use super::ensure::{ActionModel, EnsureModel, EnsureProblem, Event, EventModel, StageModel};
use crate::driver::{DepReadiness, HostModel};
use crate::spec::{DeploymentModel, SpecProblem};

verus! {

/// Where ensuring a dependency starts.
pub open spec fn started(dep: DepModel, me: Seq<char>, now: u64) -> EnsureModel {
    EnsureModel { dep, me, now, stage: StageModel::Leasing }
}

/// Where a sequence of events leads.
pub open spec fn run(m: EnsureModel, events: Seq<EventModel>) -> EnsureModel
    decreases events.len(),
{
    if events.len() == 0 {
        m
    } else {
        super::ensure::after(run(m, events.drop_last()), events.last())
    }
}

/// Whether an event answers the action that is due.
pub open spec fn answers(m: EnsureModel, e: EventModel) -> bool {
    match m.stage {
        StageModel::Leasing => e is Recorded,
        StageModel::Probing => e is Readiness,
        StageModel::Claiming => e is Recorded,
        StageModel::Electing => e is Claims,
        StageModel::Lowering => e is Parsed,
        StageModel::Placing(_) => e is Atlas,
        StageModel::Deploying(_, _, _) => e is Deployed,
        StageModel::Advertising => e is Advertised,
        StageModel::Held(_) => false,
        StageModel::Failed(_) => false,
    }
}

/// How many actions are left at most.
pub open spec fn actions_left(m: EnsureModel) -> nat {
    let n = super::ensure::copies(m.dep) as nat;
    match m.stage {
        StageModel::Leasing => 7 + n,
        StageModel::Probing => 6 + n,
        StageModel::Claiming => 5 + n,
        StageModel::Electing => 4 + n,
        StageModel::Lowering => 3 + n,
        StageModel::Placing(_) => 2 + n,
        StageModel::Deploying(_, _, left) => 1 + left as nat,
        StageModel::Advertising => 1,
        StageModel::Held(_) => 0,
        StageModel::Failed(_) => 0,
    }
}

/// Whether a stage is part of spawning the dependency.
pub open spec fn spawning(s: StageModel) -> bool {
    s is Lowering || s is Placing || s is Deploying || s is Advertising
}

/// The first thing done is to record the lease of the app that asks, whoever spawns the
/// dependency in the end; and nothing else is done before the lease is recorded.
pub proof fn the_lease_comes_first(dep: DepModel, me: Seq<char>, now: u64, e: EventModel)
    ensures
        super::ensure::action_at(started(dep, me, now)) == ActionModel::PutLease(
            super::coord::lease_at(super::dep::service_name(dep), me, dep.lease_ttl_secs, now),
        ),
        super::ensure::after(started(dep, me, now), e).stage is Probing <==> (e matches
            EventModel::Recorded(r) && r is Ok),
        !(super::ensure::after(started(dep, me, now), e).stage is Probing) ==> {
            let s = super::ensure::after(started(dep, me, now), e).stage;
            s is Leasing || s is Failed
        },
{
}

/// A dependency that the mesh reports as up is leased and never spawned.
pub proof fn a_running_dependency_is_not_spawned(m: EnsureModel, up: DepReadiness)
    requires
        m.stage is Probing,
        up != DepReadiness::Absent,
    ensures
        super::ensure::after(m, EventModel::Readiness(Some(up))).stage == StageModel::Held(false),
{
}

/// Spawning begins in two ways only: the dependency is no singleton and the mesh did not report
/// it as up, or it is a singleton and the claims read decide for this node.
pub proof fn only_the_owner_spawns(m: EnsureModel, e: EventModel)
    requires
        !spawning(m.stage),
        spawning(super::ensure::after(m, e).stage),
    ensures
        ({
            ||| !m.dep.singleton && m.stage is Probing && (e == EventModel::Readiness(None) || e
                == EventModel::Readiness(Some(DepReadiness::Absent)))
            ||| m.stage is Electing && (e matches EventModel::Claims(Ok(claims))
                && super::coord::owner_at(claims, m.now) == Some(m.me))
        }),
{
}

/// Election is for singletons: it is reached only by way of a singleton's claim.
pub proof fn only_singletons_are_elected(
    dep: DepModel,
    me: Seq<char>,
    now: u64,
    events: Seq<EventModel>,
)
    ensures
        ({
            let m = run(started(dep, me, now), events);
            &&& m.dep == dep && m.me == me && m.now == now
            &&& m.stage is Claiming || m.stage is Electing ==> dep.singleton
        }),
    decreases events.len(),
{
    if events.len() > 0 {
        only_singletons_are_elected(dep, me, now, events.drop_last());
    }
}

/// Of two nodes that hold the same live claims at one time, at most one spawns the singleton.
pub proof fn at_most_one_node_spawns_a_singleton(
    a: EnsureModel,
    b: EnsureModel,
    seen_by_a: Seq<ClaimModel>,
    seen_by_b: Seq<ClaimModel>,
)
    requires
        a.stage is Electing,
        b.stage is Electing,
        a.now == b.now,
        forall|c: ClaimModel|
            c.live(a.now) ==> (#[trigger] seen_by_a.contains(c) <==> seen_by_b.contains(c)),
        spawning(super::ensure::after(a, EventModel::Claims(Ok(seen_by_a))).stage),
        spawning(super::ensure::after(b, EventModel::Claims(Ok(seen_by_b))).stage),
    ensures
        a.me == b.me,
{
    super::coord_laws::nodes_agree_on_the_owner(seen_by_a, seen_by_b, a.now);
}

/// A node that claims a singleton which nobody else has a live claim on wins it, and spawns.
pub proof fn a_sole_claimant_spawns(m: EnsureModel, claims: Seq<ClaimModel>)
    requires
        m.stage is Electing,
        claims.contains(
            super::coord::claim_at(
                super::dep::service_name(m.dep),
                m.me,
                m.dep.lease_ttl_secs,
                m.now,
            ),
        ),
        forall|i: int|
            0 <= i < claims.len() && (#[trigger] claims[i]).live(m.now) ==> claims[i].owner == m.me,
        m.now < u64::MAX,
    ensures
        super::ensure::after(m, EventModel::Claims(Ok(claims))).stage is Lowering,
{
    let mine = super::coord::claim_at(
        super::dep::service_name(m.dep),
        m.me,
        m.dep.lease_ttl_secs,
        m.now,
    );
    let i = choose|i: int| 0 <= i < claims.len() && claims[i] == mine;
    assert(claims[i].live(m.now));
    super::coord_laws::owner_is_the_lowest_live_claimant(claims, m.now);
}

/// Whether one of the events gives claims that decide on `me`.
pub open spec fn elected(events: Seq<EventModel>, me: Seq<char>, now: u64) -> bool {
    exists|k: int|
        0 <= k < events.len() && (#[trigger] events[k] matches EventModel::Claims(Ok(claims))
            && super::coord::owner_at(claims, now) == Some(me))
}

/// A singleton is spawned, and its claim kept, by a node that the claims it read decided on, and
/// by no other: one that lost, or that found the singleton running, holds no claim to renew.
pub proof fn only_an_elected_node_keeps_the_claim(
    dep: DepModel,
    me: Seq<char>,
    now: u64,
    events: Seq<EventModel>,
)
    ensures
        ({
            let m = run(started(dep, me, now), events);
            &&& m.dep == dep && m.me == me && m.now == now
            &&& m.stage == StageModel::Held(true) ==> dep.singleton
            &&& dep.singleton && (m.stage == StageModel::Held(true) || spawning(m.stage))
                ==> elected(events, me, now)
        }),
    decreases events.len(),
{
    if events.len() > 0 {
        let front = events.drop_last();
        only_an_elected_node_keeps_the_claim(dep, me, now, front);
        if elected(front, me, now) {
            let k = choose|k: int|
                0 <= k < front.len() && (#[trigger] front[k] matches EventModel::Claims(Ok(claims))
                    && super::coord::owner_at(claims, now) == Some(me));
            assert(events[k] == front[k]);
        }
        assert(events[events.len() - 1] == events.last());
    }
}

/// A pinned dependency is deployed on the node it is pinned to and nowhere else.
pub proof fn a_pinned_dependency_stays_on_its_node(
    dep: DepModel,
    me: Seq<char>,
    now: u64,
    events: Seq<EventModel>,
)
    requires
        dep.place is Node,
    ensures
        ({
            let m = run(started(dep, me, now), events);
            &&& m.dep == dep
            &&& !(m.stage is Placing)
            &&& super::ensure::action_at(m) matches ActionModel::Deploy(host, _) ==> PlaceModel::Node(
                host,
            ) == dep.place
        }),
    decreases events.len(),
{
    if events.len() > 0 {
        a_pinned_dependency_stays_on_its_node(dep, me, now, events.drop_last());
    }
}

/// Whether `host` is listed with `tag`.
pub open spec fn listed_with_tag(hosts: Seq<HostModel>, host: Seq<char>, tag: Seq<char>) -> bool {
    exists|i: int|
        0 <= i < hosts.len() && (#[trigger] hosts[i]).node_id == host && hosts[i].tags.contains(tag)
}

/// Whether one of the events lists `host` with `tag`.
pub open spec fn seen_with_tag(events: Seq<EventModel>, host: Seq<char>, tag: Seq<char>) -> bool {
    exists|k: int|
        0 <= k < events.len() && (#[trigger] events[k] matches EventModel::Atlas(Ok(hosts))
            && listed_with_tag(hosts, host, tag))
}

proof fn lemma_first_tagged(hosts: Seq<HostModel>, tag: Seq<char>)
    ensures
        super::ensure::first_tagged(hosts, tag) matches Some(host) ==> listed_with_tag(
            hosts,
            host,
            tag,
        ),
        super::ensure::first_tagged(hosts, tag) is Some <==> exists|i: int|
            0 <= i < hosts.len() && (#[trigger] hosts[i]).tags.contains(tag),
    decreases hosts.len(),
{
    if hosts.len() > 0 {
        let rest = hosts.drop_first();
        lemma_first_tagged(rest, tag);
        assert(forall|i: int| 0 <= i < rest.len() ==> #[trigger] rest[i] == hosts[i + 1]);
        assert forall|i: int| 0 < i < hosts.len() implies #[trigger] hosts[i] == rest[i - 1] by {}
    }
}

proof fn lemma_first_tagged_is_first(hosts: Seq<HostModel>, tag: Seq<char>, i: int)
    requires
        0 <= i < hosts.len(),
        hosts[i].tags.contains(tag),
        forall|j: int| 0 <= j < i ==> !(#[trigger] hosts[j]).tags.contains(tag),
    ensures
        super::ensure::first_tagged(hosts, tag) == Some(hosts[i].node_id),
    decreases i,
{
    if i > 0 {
        let rest = hosts.drop_first();
        assert(!hosts[0].tags.contains(tag));
        assert(rest[i - 1] == hosts[i]);
        assert forall|j: int| 0 <= j < i - 1 implies !(#[trigger] rest[j]).tags.contains(tag) by {
            assert(rest[j] == hosts[j + 1]);
        }
        lemma_first_tagged_is_first(rest, tag, i - 1);
    }
}

/// How many times a dependency is deployed: as often as it has replicas, and once for none.
pub open spec fn times(d: DepModel) -> u32 {
    if d.replicas > 1 {
        d.replicas
    } else {
        1
    }
}

/// A dependency that is placed automatically is deployed on the first host of the atlas, once for
/// each replica, whenever the atlas lists a host at all; it is given up if and only if the atlas is
/// empty.
pub proof fn an_automatic_placement_takes_the_first_host(
    m: EnsureModel,
    d: DeploymentModel,
    hosts: Seq<HostModel>,
)
    requires
        m.stage == StageModel::Placing(d),
        m.dep.place is Auto,
    ensures
        ({
            let next = super::ensure::after(m, EventModel::Atlas(Ok(hosts))).stage;
            &&& hosts.len() > 0 ==> next == StageModel::Deploying(hosts[0].node_id, d, times(m.dep))
            &&& hosts.len() == 0 ==> next == StageModel::Failed(EnsureProblem::NoHost(m.dep.name))
        }),
        hosts.len() > 0 ==> super::ensure::host_for(PlaceModel::Auto, hosts) == Some(
            hosts[0].node_id,
        ),
        hosts.len() == 0 ==> super::ensure::host_for(PlaceModel::Auto, hosts) is None,
{
}

/// A dependency placed by tag is deployed on the first host that advertises the tag, once for each
/// replica.
pub proof fn a_tag_takes_the_first_host_that_advertises_it(
    m: EnsureModel,
    d: DeploymentModel,
    hosts: Seq<HostModel>,
    tag: Seq<char>,
    i: int,
)
    requires
        m.stage == StageModel::Placing(d),
        m.dep.place == PlaceModel::Tag(tag),
        0 <= i < hosts.len(),
        hosts[i].tags.contains(tag),
        forall|j: int| 0 <= j < i ==> !(#[trigger] hosts[j]).tags.contains(tag),
    ensures
        super::ensure::after(m, EventModel::Atlas(Ok(hosts))).stage == StageModel::Deploying(
            hosts[i].node_id,
            d,
            times(m.dep),
        ),
        super::ensure::host_for(m.dep.place, hosts) == Some(hosts[i].node_id),
{
    lemma_first_tagged_is_first(hosts, tag, i);
}

/// A pinned dependency needs no atlas: its node is picked whatever hosts there are.
pub proof fn a_pin_needs_no_atlas(node: Seq<char>, hosts: Seq<HostModel>)
    ensures
        super::ensure::host_for(PlaceModel::Node(node), hosts) == Some(node),
{
}

/// Where the atlas lists a host that advertises the tag of a dependency, the dependency is
/// deployed on such a host; where it lists none, the dependency is given up.
pub proof fn a_tag_finds_a_host_that_advertises_it(
    m: EnsureModel,
    hosts: Seq<HostModel>,
    tag: Seq<char>,
)
    requires
        m.stage is Placing,
        m.dep.place == PlaceModel::Tag(tag),
    ensures
        ({
            let next = super::ensure::after(m, EventModel::Atlas(Ok(hosts))).stage;
            let some = exists|i: int| 0 <= i < hosts.len() && (#[trigger] hosts[i]).tags.contains(tag);
            &&& some ==> next is Deploying && listed_with_tag(hosts, next->Deploying_0, tag)
            &&& !some ==> next == StageModel::Failed(EnsureProblem::NoHost(m.dep.name))
        }),
{
    lemma_first_tagged(hosts, tag);
}

/// A dependency placed by tag is only ever deployed on a host that the atlas listed with the tag.
pub proof fn a_tagged_dependency_stays_on_tagged_hosts(
    dep: DepModel,
    me: Seq<char>,
    now: u64,
    events: Seq<EventModel>,
    tag: Seq<char>,
)
    requires
        dep.place == PlaceModel::Tag(tag),
    ensures
        ({
            let m = run(started(dep, me, now), events);
            &&& m.dep == dep
            &&& super::ensure::action_at(m) matches ActionModel::Deploy(host, _) ==> seen_with_tag(
                events,
                host,
                tag,
            )
        }),
    decreases events.len(),
{
    if events.len() > 0 {
        let front = events.drop_last();
        let m = run(started(dep, me, now), front);
        a_tagged_dependency_stays_on_tagged_hosts(dep, me, now, front, tag);
        assert(forall|k: int| 0 <= k < front.len() ==> #[trigger] front[k] == events[k]);
        if m.stage is Deploying && seen_with_tag(front, m.stage->Deploying_0, tag) {
            let k = choose|k: int|
                0 <= k < front.len() && (#[trigger] front[k] matches EventModel::Atlas(Ok(hosts))
                    && listed_with_tag(hosts, m.stage->Deploying_0, tag));
            assert(events[k] == front[k]);
        }
        if let EventModel::Atlas(Ok(hosts)) = events.last() {
            lemma_first_tagged(hosts, tag);
            assert(events[events.len() - 1] == EventModel::Atlas(Ok(hosts)));
        }
    }
}

/// What is deployed is valid, and it is what the manifest of the dependency was parsed to.
pub proof fn only_valid_deployments_are_deployed(
    dep: DepModel,
    me: Seq<char>,
    now: u64,
    events: Seq<EventModel>,
)
    ensures
        ({
            let m = run(started(dep, me, now), events);
            &&& m.stage matches StageModel::Placing(d) ==> crate::spec::spec_problem(d) is None
            &&& m.stage matches StageModel::Deploying(_, d, _) ==> crate::spec::spec_problem(
                d,
            ) is None
        }),
    decreases events.len(),
{
    if events.len() > 0 {
        only_valid_deployments_are_deployed(dep, me, now, events.drop_last());
    }
}

/// One successful deploy after another, `n` of them.
pub open spec fn deploys(n: nat) -> Seq<EventModel> {
    Seq::new(n, |i: int| EventModel::Deployed(Ok(())))
}

/// Once a host is found, the dependency is deployed once per replica (at least once) before it is
/// advertised: after fewer successes a deploy is still due, after that many none is.
pub proof fn every_replica_is_deployed(m: EnsureModel, n: nat)
    requires
        m.stage is Deploying,
        m.stage->Deploying_2 == super::ensure::copies(m.dep),
        n <= super::ensure::copies(m.dep),
    ensures
        n < super::ensure::copies(m.dep) ==> run(m, deploys(n)).stage == StageModel::Deploying(
            m.stage->Deploying_0,
            m.stage->Deploying_1,
            (super::ensure::copies(m.dep) - n) as u32,
        ),
        n == super::ensure::copies(m.dep) ==> run(m, deploys(n)).stage is Advertising,
    decreases n,
{
    if n > 0 {
        every_replica_is_deployed(m, (n - 1) as nat);
        assert(deploys(n).drop_last() =~= deploys((n - 1) as nat));
        assert(deploys(n).last() == EventModel::Deployed(Ok(())));
    }
}

/// Every answer brings the end nearer: an event that answers the action due leaves fewer actions,
/// and where none is due the dependency is held or given up. So ensuring a dependency takes at
/// most seven actions and one for each replica.
pub proof fn every_answer_is_progress(m: EnsureModel, e: EventModel)
    ensures
        answers(m, e) && (m.stage matches StageModel::Deploying(_, _, left) ==> left > 0)
            ==> actions_left(super::ensure::after(m, e)) < actions_left(m),
        actions_left(m) == 0 <==> m.stage is Held || m.stage is Failed,
        m.stage is Leasing ==> actions_left(m) == 7 + super::ensure::copies(m.dep),
{
}

/// What is asked, by whom and since when never changes, whatever comes of the actions; and nothing
/// but an answer to the action due moves the run on.
pub proof fn only_answers_move_the_run(m: EnsureModel, e: EventModel)
    ensures
        super::ensure::after(m, e).dep == m.dep,
        super::ensure::after(m, e).me == m.me,
        super::ensure::after(m, e).now == m.now,
        !answers(m, e) ==> super::ensure::after(m, e) == m,
        answers(m, e) && !(m.stage is Deploying) ==> super::ensure::after(m, e).stage != m.stage,
        m.stage is Held || m.stage is Failed ==> super::ensure::after(m, e) == m,
{
}

/// A lease or a claim that is recorded leads on, and one that is not ends the run with what the
/// registry said.
pub proof fn records_lead_on(m: EnsureModel, said: Seq<char>)
    ensures
        m.stage is Leasing ==> super::ensure::after(m, EventModel::Recorded(Ok(()))).stage is Probing,
        m.stage is Claiming ==> super::ensure::after(
            m,
            EventModel::Recorded(Ok(())),
        ).stage is Electing,
        m.stage is Leasing || m.stage is Claiming ==> super::ensure::after(
            m,
            EventModel::Recorded(Err(said)),
        ).stage == StageModel::Failed(EnsureProblem::Registry(said)),
{
}

/// A dependency that is absent, or of which the mesh says nothing, is claimed where it is a
/// singleton and spawned at once where it is not; one that is starting or healthy is held.
pub proof fn what_is_absent_is_claimed_or_spawned(m: EnsureModel)
    requires
        m.stage is Probing,
    ensures
        ({
            let silent = super::ensure::after(m, EventModel::Readiness(None)).stage;
            let absent = super::ensure::after(
                m,
                EventModel::Readiness(Some(DepReadiness::Absent)),
            ).stage;
            &&& silent == absent
            &&& m.dep.singleton ==> absent is Claiming
            &&& !m.dep.singleton ==> absent is Lowering
            &&& super::ensure::after(
                m,
                EventModel::Readiness(Some(DepReadiness::Starting)),
            ).stage == StageModel::Held(false)
            &&& super::ensure::after(m, EventModel::Readiness(Some(DepReadiness::Healthy))).stage
                == StageModel::Held(false)
        }),
{
}

/// Who spawns a singleton: a node with a claim that has not lapsed, where no such claim has a lower
/// node id. Any other leases it, and one that cannot read the claims gives up.
pub proof fn the_lowest_live_claimant_spawns(
    m: EnsureModel,
    claims: Seq<ClaimModel>,
    said: Seq<char>,
)
    requires
        m.stage is Electing,
    ensures
        ({
            let next = super::ensure::after(m, EventModel::Claims(Ok(claims))).stage;
            let lowest = {
                &&& exists|i: int|
                    0 <= i < claims.len() && m.now < (#[trigger] claims[i]).expires_at
                        && claims[i].owner == m.me
                &&& forall|i: int|
                    0 <= i < claims.len() && m.now < (#[trigger] claims[i]).expires_at
                        ==> !crate::text::text_before(claims[i].owner, m.me)
            };
            &&& lowest ==> next is Lowering
            &&& !lowest ==> next == StageModel::Held(false)
        }),
        super::ensure::after(m, EventModel::Claims(Err(said))).stage == StageModel::Failed(
            EnsureProblem::Registry(said),
        ),
{
    super::coord_laws::who_owns_a_singleton(claims, m.now, m.me);
}

/// A valid deployment goes to the node it is pinned to, once for each replica, or else to the
/// atlas; an invalid one, or a manifest that does not parse, ends the run with what is wrong.
pub proof fn a_lowered_dependency_goes_on(m: EnsureModel, d: DeploymentModel, said: Seq<char>)
    requires
        m.stage is Lowering,
    ensures
        ({
            let next = super::ensure::after(m, EventModel::Parsed(Ok(d))).stage;
            match crate::spec::spec_problem(d) {
                Some(p) => next == StageModel::Failed(EnsureProblem::Spec(p)),
                None => match m.dep.place {
                    PlaceModel::Node(node) => next == StageModel::Deploying(node, d, times(m.dep)),
                    _ => next == StageModel::Placing(d),
                },
            }
        }),
        super::ensure::after(m, EventModel::Parsed(Err(said))).stage == StageModel::Failed(
            EnsureProblem::Spec(SpecProblem::Manifest(said)),
        ),
{
}

/// An atlas that cannot be read, or a host that refuses a replica, ends the run with what was said.
pub proof fn mesh_failures_end_the_run(m: EnsureModel, said: Seq<char>)
    ensures
        m.stage is Placing ==> super::ensure::after(m, EventModel::Atlas(Err(said))).stage
            == StageModel::Failed(EnsureProblem::Atlas(said)),
        m.stage is Deploying ==> super::ensure::after(m, EventModel::Deployed(Err(said))).stage
            == StageModel::Failed(EnsureProblem::Deploy(said)),
{
}

/// Deploys go on, on the same host and with the same deployment, until as many were made as were
/// due; then the service is advertised, and the dependency is held whether that succeeds or not, by
/// its owner where it is a singleton.
pub proof fn deploys_go_on_until_all_are_made(
    m: EnsureModel,
    host: Seq<char>,
    d: DeploymentModel,
    due: u32,
    n: nat,
)
    requires
        m.stage == StageModel::Deploying(host, d, due),
        due >= 1,
        n <= due,
    ensures
        n < due ==> run(m, deploys(n)).stage == StageModel::Deploying(host, d, (due - n) as u32),
        n == due ==> run(m, deploys(n)).stage is Advertising,
        n == due ==> super::ensure::after(run(m, deploys(n)), EventModel::Advertised).stage
            == StageModel::Held(m.dep.singleton),
        run(m, deploys(n)).dep == m.dep,
    decreases n,
{
    if n > 0 {
        deploys_go_on_until_all_are_made(m, host, d, due, (n - 1) as nat);
        assert(deploys(n).drop_last() =~= deploys((n - 1) as nat));
        assert(deploys(n).last() == EventModel::Deployed(Ok(())));
    }
}

/// What is done at each stage concerns the dependency asked for: its service, this node, its
/// manifest, and the host and the deployment that were settled on.
pub proof fn actions_concern_the_dependency(m: EnsureModel)
    ensures
        ({
            let a = super::ensure::action_at(m);
            let service = super::dep::service_name(m.dep);
            &&& a is PutLease <==> m.stage is Leasing
            &&& a matches ActionModel::PutLease(l) ==> l.service == service && l.holder == m.me
                && l.expires_at == super::coord::expiry(m.now, m.dep.lease_ttl_secs)
            &&& a is Probe <==> m.stage is Probing
            &&& a matches ActionModel::Probe(s) ==> s == service
            &&& a is PutClaim <==> m.stage is Claiming
            &&& a matches ActionModel::PutClaim(c) ==> c.service == service && c.owner == m.me
                && c.expires_at == super::coord::expiry(m.now, m.dep.lease_ttl_secs)
            &&& a is ReadClaims <==> m.stage is Electing
            &&& a matches ActionModel::ReadClaims(s) ==> s == service
            &&& a is Parse <==> m.stage is Lowering
            &&& a matches ActionModel::Parse(y) ==> y == super::dep::manifest(m.dep)
            &&& a is ReadAtlas <==> m.stage is Placing
            &&& a is Deploy <==> m.stage is Deploying
            &&& a matches ActionModel::Deploy(host, d) ==> m.stage->Deploying_0 == host
                && m.stage->Deploying_1 == d
            &&& a is Advertise <==> m.stage is Advertising
            &&& a matches ActionModel::Advertise(s) ==> s == service
            &&& a is Hold <==> m.stage is Held
            &&& a is GiveUp <==> m.stage is Failed
        }),
{
}

/// From the first action to the deploys: a dependency that is absent, whose manifest parses to a
/// valid deployment, and that is no singleton, is deployed on the first host of the atlas where its
/// placement is left open, once for each replica.
pub proof fn an_absent_dependency_is_deployed(
    dep: DepModel,
    me: Seq<char>,
    now: u64,
    d: DeploymentModel,
    hosts: Seq<HostModel>,
)
    requires
        !dep.singleton,
        dep.place is Auto,
        crate::spec::spec_problem(d) is None,
        hosts.len() > 0,
    ensures
        ({
            let events = seq![
                EventModel::Recorded(Ok(())),
                EventModel::Readiness(Some(DepReadiness::Absent)),
                EventModel::Parsed(Ok(d)),
                EventModel::Atlas(Ok(hosts)),
            ];
            run(started(dep, me, now), events).stage == StageModel::Deploying(
                hosts[0].node_id,
                d,
                times(dep),
            )
        }),
{
    let e1 = EventModel::Recorded(Ok(()));
    let e2 = EventModel::Readiness(Some(DepReadiness::Absent));
    let e3 = EventModel::Parsed(Ok(d));
    let e4 = EventModel::Atlas(Ok(hosts));
    let events = seq![e1, e2, e3, e4];
    reveal_with_fuel(run, 5);
    assert(events.drop_last() =~= seq![e1, e2, e3]);
    assert(seq![e1, e2, e3].drop_last() =~= seq![e1, e2]);
    assert(seq![e1, e2].drop_last() =~= seq![e1]);
    assert(seq![e1].drop_last() =~= Seq::<EventModel>::empty());
}

/// An outcome is taken as it is given, with what was said of a failure.
pub proof fn outcomes_are_taken_as_given(said: String, up: DepReadiness)
    ensures
        Event::Recorded(Ok(()))@ matches EventModel::Recorded(r) && r is Ok,
        Event::Recorded(Err(said))@ matches EventModel::Recorded(r) && r matches Err(m) && m == said@,
        Event::Deployed(Ok(()))@ matches EventModel::Deployed(r) && r is Ok,
        Event::Deployed(Err(said))@ matches EventModel::Deployed(r) && r matches Err(m) && m == said@,
        Event::Readiness(Ok(up))@ == EventModel::Readiness(Some(up)),
        Event::Readiness(Err(said))@ == EventModel::Readiness(None),
        Event::Claims(Err(said))@ matches EventModel::Claims(r) && r matches Err(m) && m == said@,
        Event::Atlas(Err(said))@ matches EventModel::Atlas(r) && r matches Err(m) && m == said@,
        Event::Parsed(Err(said))@ matches EventModel::Parsed(r) && r matches Err(m) && m == said@,
{
}

} // verus!
