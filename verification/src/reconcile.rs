//! Replica handles: what the orchestrator remembers of each replica that it launched.

use vstd::prelude::*;

verus! {

/// Where a replica is in its life.
#[derive(Clone, Copy, Debug, PartialEq, Eq, Structural)]
pub enum Phase {
    /// Accepted by a host, not yet running.
    Pending,
    /// Running.
    Running,
    /// Died, was rejected, or is no longer known to its host.
    Failed,
    /// Ran to its end and was settled.
    Settled,
}

/// One replica that was launched.
#[derive(Debug, PartialEq, Eq)]
pub struct ReplicaState {
    /// The job that runs the replica.
    pub job_id: String,
    /// The host that the job was placed on.
    pub node_id: String,
    /// The revision that was launched.
    pub revision: String,
    /// Its phase, as last seen.
    pub phase: Phase,
}

/// What a [`ReplicaState`] says.
pub struct ReplicaModel {
    pub job_id: Seq<char>,
    pub node_id: Seq<char>,
    pub revision: Seq<char>,
    pub phase: Phase,
}

impl View for ReplicaState {
    type V = ReplicaModel;

    open spec fn view(&self) -> ReplicaModel {
        ReplicaModel {
            job_id: self.job_id@,
            node_id: self.node_id@,
            revision: self.revision@,
            phase: self.phase,
        }
    }
}

impl Clone for ReplicaState {
    fn clone(&self) -> (r: ReplicaState)
        ensures
            r@ == self@,
    {
        ReplicaState {
            job_id: self.job_id.clone(),
            node_id: self.node_id.clone(),
            revision: self.revision.clone(),
            phase: self.phase,
        }
    }
}

/// What a sequence of replicas says.
pub open spec fn replica_models(v: Seq<ReplicaState>) -> Seq<ReplicaModel> {
    Seq::new(v.len(), |i: int| v[i]@)
}

/// A copy of a vector of replicas.
pub fn clone_replicas(v: &Vec<ReplicaState>) -> (r: Vec<ReplicaState>)
    ensures
        replica_models(r@) == replica_models(v@),
{
    let mut r: Vec<ReplicaState> = Vec::new();
    for i in 0..v.len()
        invariant
            r.len() == i,
            forall|j: int| 0 <= j < i ==> r@[j]@ == v@[j]@,
    {
        r.push(v[i].clone());
    }
    assert(replica_models(r@) =~= replica_models(v@));
    r
}

/// How many replicas are in phase `p`.
pub open spec fn count_phase(v: Seq<ReplicaModel>, p: Phase) -> nat {
    v.filter(|r: ReplicaModel| r.phase == p).len()
}

/// Counts the replicas that are pending, that run, and that are at their end (failed or settled).
pub fn tally_phases(replicas: &Vec<ReplicaState>) -> (t: (usize, usize, usize))
    ensures
        t.0 == count_phase(replica_models(replicas@), Phase::Pending),
        t.1 == count_phase(replica_models(replicas@), Phase::Running),
        t.2 == count_phase(replica_models(replicas@), Phase::Failed) + count_phase(
            replica_models(replicas@),
            Phase::Settled,
        ),
        t.0 + t.1 + t.2 == replicas@.len(),
{
    let mut pending: usize = 0;
    let mut running: usize = 0;
    let mut terminal: usize = 0;
    let ghost all = replica_models(replicas@);
    assert(all.take(0) =~= Seq::<ReplicaModel>::empty());
    proof {
        reveal(Seq::filter);
    }
    for i in 0..replicas.len()
        invariant
            all == replica_models(replicas@),
            pending == count_phase(all.take(i as int), Phase::Pending),
            running == count_phase(all.take(i as int), Phase::Running),
            terminal == count_phase(all.take(i as int), Phase::Failed) + count_phase(
                all.take(i as int),
                Phase::Settled,
            ),
            pending + running + terminal == i,
    {
        proof {
            reveal(Seq::filter);
            assert(all.take(i + 1).drop_last() =~= all.take(i as int));
            assert(all.take(i + 1).last() == replicas@[i as int]@);
        }
        match replicas[i].phase {
            Phase::Pending => {
                pending = pending + 1;
            },
            Phase::Running => {
                running = running + 1;
            },
            Phase::Failed => {
                terminal = terminal + 1;
            },
            Phase::Settled => {
                terminal = terminal + 1;
            },
        }
    }
    assert(all.take(replicas.len() as int) =~= all);
    (pending, running, terminal)
}

/// One more replica adds one to the count of its own phase and nothing to the others; no replica
/// counts for nothing.
pub proof fn each_replica_is_counted_once(v: Seq<ReplicaModel>, r: ReplicaModel, p: Phase)
    ensures
        count_phase(Seq::empty(), p) == 0,
        count_phase(v.push(r), p) == count_phase(v, p) + if r.phase == p {
            1nat
        } else {
            0nat
        },
{
    reveal(Seq::filter);
    assert(v.push(r).drop_last() =~= v);
}

/// Every replica is in one of the four phases.
pub proof fn the_phases_add_up(v: Seq<ReplicaModel>)
    ensures
        count_phase(v, Phase::Pending) + count_phase(v, Phase::Running) + count_phase(
            v,
            Phase::Failed,
        ) + count_phase(v, Phase::Settled) == v.len(),
    decreases v.len(),
{
    reveal(Seq::filter);
    if v.len() > 0 {
        the_phases_add_up(v.drop_last());
    }
}

} // verus!
