//! Ensuring a dependency, step by step.
//!
//! [`Ensure`] decides; the program around it acts. [`Ensure::action`] says what to do next, and
//! [`Ensure::advance`] takes what came of it. The lease is recorded first, whoever ends up
//! spawning the dependency. A dependency that is up is only leased. An absent one is spawned, a
//! singleton by the owner that the claims decide on and by nobody else.

use vstd::prelude::*;
use vstd::string::*;

use super::coord::{winner, Claim, ClaimModel, Lease, LeaseModel};
use super::dep::{Dep, DepModel, Place, PlaceModel};
use crate::driver::{DepReadiness, Host, HostModel};
use crate::spec::{Deployment, DeploymentModel, SpecError, SpecProblem};
use crate::text::{around, lists, same};

verus! {

/// Why a dependency could not be ensured.
#[derive(Debug)]
pub enum EnsureError {
    /// The registry failed; carries what it said.
    Registry(String),
    /// The dependency's manifest was refused.
    Spec(SpecError),
    /// The atlas could not be read; carries what the driver said.
    Atlas(String),
    /// The atlas lists no host for the placement; carries the dependency's name.
    NoHost(String),
    /// A host refused a replica; carries what the driver said.
    Deploy(String),
}

/// What an [`EnsureError`] says.
pub enum EnsureProblem {
    Registry(Seq<char>),
    Spec(SpecProblem),
    Atlas(Seq<char>),
    NoHost(Seq<char>),
    Deploy(Seq<char>),
}

impl View for EnsureError {
    type V = EnsureProblem;

    open spec fn view(&self) -> EnsureProblem {
        match self {
            EnsureError::Registry(m) => EnsureProblem::Registry(m@),
            EnsureError::Spec(e) => EnsureProblem::Spec(e@),
            EnsureError::Atlas(m) => EnsureProblem::Atlas(m@),
            EnsureError::NoHost(n) => EnsureProblem::NoHost(n@),
            EnsureError::Deploy(m) => EnsureProblem::Deploy(m@),
        }
    }
}

impl EnsureError {
    /// What is said of the failure.
    pub fn message(&self) -> (s: String)
        ensures
            s@ == match self@ {
                EnsureProblem::Registry(m) => m,
                EnsureProblem::Spec(p) => crate::spec::problem_text(p),
                EnsureProblem::Atlas(m) => m,
                EnsureProblem::NoHost(n) => "no atlas host available to place '"@ + n + "'"@,
                EnsureProblem::Deploy(m) => m,
            },
    {
        match self {
            EnsureError::Registry(m) => m.clone(),
            EnsureError::Spec(e) => e.message(),
            EnsureError::Atlas(m) => m.clone(),
            EnsureError::NoHost(n) => around(
                "no atlas host available to place '",
                n.as_str(),
                "'",
            ),
            EnsureError::Deploy(m) => m.clone(),
        }
    }
}

/// How far ensuring a dependency has come.
#[derive(Debug)]
pub enum Stage {
    /// This app's lease is to be recorded.
    Leasing,
    /// The mesh is to be asked for the service.
    Probing,
    /// This node's claim is to be recorded.
    Claiming,
    /// The claims are to be read, and the owner decided.
    Electing,
    /// The dependency is to be lowered to a deployment.
    Lowering,
    /// A host is to be found for the deployment.
    Placing(Deployment),
    /// The deployment is to be placed on the host, so many times more.
    Deploying(String, Deployment, u32),
    /// The service is to be advertised.
    Advertising,
    /// The dependency is ensured and leased; and whether by the owner of a singleton, whose claim
    /// stands.
    Held(bool),
    /// The dependency could not be ensured.
    Failed(EnsureError),
}

/// What a [`Stage`] says.
pub enum StageModel {
    Leasing,
    Probing,
    Claiming,
    Electing,
    Lowering,
    Placing(DeploymentModel),
    Deploying(Seq<char>, DeploymentModel, u32),
    Advertising,
    Held(bool),
    Failed(EnsureProblem),
}

impl View for Stage {
    type V = StageModel;

    open spec fn view(&self) -> StageModel {
        match self {
            Stage::Leasing => StageModel::Leasing,
            Stage::Probing => StageModel::Probing,
            Stage::Claiming => StageModel::Claiming,
            Stage::Electing => StageModel::Electing,
            Stage::Lowering => StageModel::Lowering,
            Stage::Placing(d) => StageModel::Placing(d@),
            Stage::Deploying(host, d, left) => StageModel::Deploying(host@, d@, *left),
            Stage::Advertising => StageModel::Advertising,
            Stage::Held(owner) => StageModel::Held(*owner),
            Stage::Failed(e) => StageModel::Failed(e@),
        }
    }
}

/// What is to be done next.
#[derive(Debug)]
pub enum Action {
    /// Record this lease in the registry.
    PutLease(Lease),
    /// Ask the mesh whether this service is up.
    Probe(String),
    /// Record this claim in the registry.
    PutClaim(Claim),
    /// Read the claims on this service from the registry.
    ReadClaims(String),
    /// Parse this manifest.
    Parse(String),
    /// List the hosts of the atlas.
    ReadAtlas,
    /// Deploy one replica of this deployment on this host.
    Deploy(String, Deployment),
    /// Advertise this service.
    Advertise(String),
    /// Nothing: the dependency is ensured.
    Hold,
    /// Nothing: the dependency could not be ensured.
    GiveUp,
}

/// What an [`Action`] says.
pub enum ActionModel {
    PutLease(LeaseModel),
    Probe(Seq<char>),
    PutClaim(ClaimModel),
    ReadClaims(Seq<char>),
    Parse(Seq<char>),
    ReadAtlas,
    Deploy(Seq<char>, DeploymentModel),
    Advertise(Seq<char>),
    Hold,
    GiveUp,
}

impl View for Action {
    type V = ActionModel;

    open spec fn view(&self) -> ActionModel {
        match self {
            Action::PutLease(l) => ActionModel::PutLease(l@),
            Action::Probe(s) => ActionModel::Probe(s@),
            Action::PutClaim(c) => ActionModel::PutClaim(c@),
            Action::ReadClaims(s) => ActionModel::ReadClaims(s@),
            Action::Parse(y) => ActionModel::Parse(y@),
            Action::ReadAtlas => ActionModel::ReadAtlas,
            Action::Deploy(host, d) => ActionModel::Deploy(host@, d@),
            Action::Advertise(s) => ActionModel::Advertise(s@),
            Action::Hold => ActionModel::Hold,
            Action::GiveUp => ActionModel::GiveUp,
        }
    }
}

/// What came of an action. Each failure carries what was said of it.
#[derive(Debug)]
pub enum Event {
    /// The lease or the claim was recorded, or not.
    Recorded(Result<(), String>),
    /// The mesh answered, or not.
    Readiness(Result<DepReadiness, String>),
    /// The claims, or why they could not be read.
    Claims(Result<Vec<Claim>, String>),
    /// What the parser made of the manifest.
    Parsed(Result<Deployment, String>),
    /// The hosts of the atlas, or why it could not be read.
    Atlas(Result<Vec<Host>, String>),
    /// The replica was deployed, or not.
    Deployed(Result<(), String>),
    /// The service was advertised, or not.
    Advertised(Result<(), String>),
}

/// What an [`Event`] says.
pub enum EventModel {
    Recorded(Result<(), Seq<char>>),
    Readiness(Option<DepReadiness>),
    Claims(Result<Seq<ClaimModel>, Seq<char>>),
    Parsed(Result<DeploymentModel, Seq<char>>),
    Atlas(Result<Seq<HostModel>, Seq<char>>),
    Deployed(Result<(), Seq<char>>),
    Advertised,
}

/// A result without a value, over the text of its failure.
pub open spec fn plain_outcome(r: Result<(), String>) -> Result<(), Seq<char>> {
    match r {
        Ok(_) => Ok(()),
        Err(m) => Err(m@),
    }
}

impl View for Event {
    type V = EventModel;

    open spec fn view(&self) -> EventModel {
        match self {
            Event::Recorded(r) => EventModel::Recorded(plain_outcome(*r)),
            Event::Readiness(r) => EventModel::Readiness(
                match r {
                    Ok(x) => Some(*x),
                    Err(_) => None,
                },
            ),
            Event::Claims(r) => EventModel::Claims(
                match r {
                    Ok(v) => Ok(super::coord::claim_models(v@)),
                    Err(m) => Err(m@),
                },
            ),
            Event::Parsed(r) => EventModel::Parsed(crate::spec::parsed_model(*r)),
            Event::Atlas(r) => EventModel::Atlas(
                match r {
                    Ok(v) => Ok(crate::driver::host_models(v@)),
                    Err(m) => Err(m@),
                },
            ),
            Event::Deployed(r) => EventModel::Deployed(plain_outcome(*r)),
            Event::Advertised(_) => EventModel::Advertised,
        }
    }
}

/// Ensuring one dependency: what is wanted, by whom, since when, and how far it has come.
#[derive(Debug)]
pub struct Ensure {
    pub dep: Dep,
    pub me: String,
    pub now: u64,
    pub stage: Stage,
}

/// What an [`Ensure`] says.
pub struct EnsureModel {
    pub dep: DepModel,
    pub me: Seq<char>,
    pub now: u64,
    pub stage: StageModel,
}

impl View for Ensure {
    type V = EnsureModel;

    open spec fn view(&self) -> EnsureModel {
        EnsureModel { dep: self.dep@, me: self.me@, now: self.now, stage: self.stage@ }
    }
}

/// How often a dependency is deployed: once per replica, at least once.
pub open spec fn copies(d: DepModel) -> u32 {
    super::dep::at_least_one(d.replicas as nat) as u32
}

/// The first of the hosts that advertises `tag`.
pub open spec fn first_tagged(hosts: Seq<HostModel>, tag: Seq<char>) -> Option<Seq<char>>
    decreases hosts.len(),
{
    if hosts.len() == 0 {
        None
    } else if hosts[0].tags.contains(tag) {
        Some(hosts[0].node_id)
    } else {
        first_tagged(hosts.drop_first(), tag)
    }
}

/// The host that a placement picks: the node it is pinned to, the first host that advertises its
/// tag, or else the first host.
pub open spec fn host_for(place: PlaceModel, hosts: Seq<HostModel>) -> Option<Seq<char>> {
    match place {
        PlaceModel::Node(host) => Some(host),
        PlaceModel::Tag(tag) => first_tagged(hosts, tag),
        PlaceModel::Auto => if hosts.len() > 0 {
            Some(hosts[0].node_id)
        } else {
            None
        },
    }
}

/// The host that `place` picks out of the atlas.
pub fn pick_host(place: &Place, hosts: &Vec<Host>) -> (host: Option<String>)
    ensures
        crate::text::opt_text(host) == host_for(place@, crate::driver::host_models(hosts@)),
{
    let ghost all = crate::driver::host_models(hosts@);
    match place {
        Place::Node(host) => Some(host.clone()),
        Place::Tag(tag) => {
            assert(all.skip(0) =~= all);
            for i in 0..hosts.len()
                invariant
                    all == crate::driver::host_models(hosts@),
                    place@ == PlaceModel::Tag(tag@),
                    first_tagged(all, tag@) == first_tagged(all.skip(i as int), tag@),
            {
                proof {
                    assert(all.skip(i as int)[0] == hosts@[i as int]@);
                    assert(all.skip(i as int).drop_first() =~= all.skip(i + 1));
                }
                if lists(&hosts[i].tags, tag.as_str()) {
                    return Some(hosts[i].node_id.clone());
                }
            }
            None
        },
        Place::Auto => if hosts.len() > 0 {
            Some(hosts[0].node_id.clone())
        } else {
            None
        },
    }
}

/// What is to be done at each stage.
pub open spec fn action_at(m: EnsureModel) -> ActionModel {
    let service = super::dep::service_name(m.dep);
    match m.stage {
        StageModel::Leasing => ActionModel::PutLease(
            super::coord::lease_at(service, m.me, m.dep.lease_ttl_secs, m.now),
        ),
        StageModel::Probing => ActionModel::Probe(service),
        StageModel::Claiming => ActionModel::PutClaim(
            super::coord::claim_at(service, m.me, m.dep.lease_ttl_secs, m.now),
        ),
        StageModel::Electing => ActionModel::ReadClaims(service),
        StageModel::Lowering => ActionModel::Parse(super::dep::manifest(m.dep)),
        StageModel::Placing(_) => ActionModel::ReadAtlas,
        StageModel::Deploying(host, d, _) => ActionModel::Deploy(host, d),
        StageModel::Advertising => ActionModel::Advertise(service),
        StageModel::Held(_) => ActionModel::Hold,
        StageModel::Failed(_) => ActionModel::GiveUp,
    }
}

/// The stage that an event leads to. An event that answers another action changes nothing.
pub open spec fn stage_after(m: EnsureModel, e: EventModel) -> StageModel {
    match (m.stage, e) {
        (StageModel::Leasing, EventModel::Recorded(r)) => match r {
            Ok(_) => StageModel::Probing,
            Err(x) => StageModel::Failed(EnsureProblem::Registry(x)),
        },
        (StageModel::Probing, EventModel::Readiness(r)) => if r is Some && r->Some_0
            != DepReadiness::Absent {
            StageModel::Held(false)
        } else if m.dep.singleton {
            StageModel::Claiming
        } else {
            StageModel::Lowering
        },
        (StageModel::Claiming, EventModel::Recorded(r)) => match r {
            Ok(_) => StageModel::Electing,
            Err(x) => StageModel::Failed(EnsureProblem::Registry(x)),
        },
        (StageModel::Electing, EventModel::Claims(r)) => match r {
            Ok(claims) => if super::coord::owner_at(claims, m.now) == Some(m.me) {
                StageModel::Lowering
            } else {
                StageModel::Held(false)
            },
            Err(x) => StageModel::Failed(EnsureProblem::Registry(x)),
        },
        (StageModel::Lowering, EventModel::Parsed(r)) => match crate::spec::manifest_outcome(r) {
            Ok(d) => match m.dep.place {
                PlaceModel::Node(host) => StageModel::Deploying(host, d, copies(m.dep)),
                _ => StageModel::Placing(d),
            },
            Err(p) => StageModel::Failed(EnsureProblem::Spec(p)),
        },
        (StageModel::Placing(d), EventModel::Atlas(r)) => match r {
            Ok(hosts) => match host_for(m.dep.place, hosts) {
                Some(host) => StageModel::Deploying(host, d, copies(m.dep)),
                None => StageModel::Failed(EnsureProblem::NoHost(m.dep.name)),
            },
            Err(x) => StageModel::Failed(EnsureProblem::Atlas(x)),
        },
        (StageModel::Deploying(host, d, left), EventModel::Deployed(r)) => match r {
            Ok(_) => if left > 1 {
                StageModel::Deploying(host, d, (left - 1) as u32)
            } else {
                StageModel::Advertising
            },
            Err(x) => StageModel::Failed(EnsureProblem::Deploy(x)),
        },
        (StageModel::Advertising, EventModel::Advertised) => StageModel::Held(m.dep.singleton),
        _ => m.stage,
    }
}

/// Where an event leads.
pub open spec fn after(m: EnsureModel, e: EventModel) -> EnsureModel {
    EnsureModel { stage: stage_after(m, e), ..m }
}

impl Ensure {
    /// Starts to ensure `dep` for the node `me` at `now`.
    pub fn start(dep: Dep, me: &str, now: u64) -> (r: Ensure)
        ensures
            r@ == (EnsureModel { dep: dep@, me: me@, now, stage: StageModel::Leasing }),
    {
        Ensure { dep, me: me.to_owned(), now, stage: Stage::Leasing }
    }

    /// What is to be done next.
    pub fn action(&self) -> (a: Action)
        ensures
            a@ == action_at(self@),
    {
        match &self.stage {
            Stage::Leasing => Action::PutLease(
                Lease::new(
                    self.dep.service().as_str(),
                    self.me.as_str(),
                    self.dep.lease_ttl_secs,
                    self.now,
                ),
            ),
            Stage::Probing => Action::Probe(self.dep.service()),
            Stage::Claiming => Action::PutClaim(
                Claim::new(
                    self.dep.service().as_str(),
                    self.me.as_str(),
                    self.dep.lease_ttl_secs,
                    self.now,
                ),
            ),
            Stage::Electing => Action::ReadClaims(self.dep.service()),
            Stage::Lowering => Action::Parse(self.dep.to_manifest()),
            Stage::Placing(_) => Action::ReadAtlas,
            Stage::Deploying(host, d, _) => Action::Deploy(host.clone(), d.clone()),
            Stage::Advertising => Action::Advertise(self.dep.service()),
            Stage::Held(_) => Action::Hold,
            Stage::Failed(_) => Action::GiveUp,
        }
    }

    /// Takes what came of the action.
    pub fn advance(self, event: Event) -> (r: Ensure)
        ensures
            r@ == after(self@, event@),
    {
        let ghost was = self@;
        let Ensure { dep, me, now, stage } = self;
        let next: Stage = match (stage, event) {
            (Stage::Leasing, Event::Recorded(r)) => match r {
                Ok(_) => Stage::Probing,
                Err(x) => Stage::Failed(EnsureError::Registry(x)),
            },
            (Stage::Probing, Event::Readiness(r)) => {
                let up: bool = match r {
                    Ok(x) => x != DepReadiness::Absent,
                    Err(_) => false,
                };
                if up {
                    Stage::Held(false)
                } else if dep.singleton {
                    Stage::Claiming
                } else {
                    Stage::Lowering
                }
            },
            (Stage::Claiming, Event::Recorded(r)) => match r {
                Ok(_) => Stage::Electing,
                Err(x) => Stage::Failed(EnsureError::Registry(x)),
            },
            (Stage::Electing, Event::Claims(r)) => match r {
                Ok(claims) => {
                    let mine: bool = match winner(claims.as_slice(), now) {
                        Some(c) => same(c.owner.as_str(), me.as_str()),
                        None => false,
                    };
                    if mine {
                        Stage::Lowering
                    } else {
                        Stage::Held(false)
                    }
                },
                Err(x) => Stage::Failed(EnsureError::Registry(x)),
            },
            (Stage::Lowering, Event::Parsed(r)) => match Deployment::from_parsed(r) {
                Ok(d) => match &dep.place {
                    Place::Node(host) => Stage::Deploying(host.clone(), d, copies_of(&dep)),
                    _ => Stage::Placing(d),
                },
                Err(e) => Stage::Failed(EnsureError::Spec(e)),
            },
            (Stage::Placing(d), Event::Atlas(r)) => match r {
                Ok(hosts) => match pick_host(&dep.place, &hosts) {
                    Some(host) => Stage::Deploying(host, d, copies_of(&dep)),
                    None => Stage::Failed(EnsureError::NoHost(dep.name.clone())),
                },
                Err(x) => Stage::Failed(EnsureError::Atlas(x)),
            },
            (Stage::Deploying(host, d, left), Event::Deployed(r)) => match r {
                Ok(_) => if left > 1 {
                    Stage::Deploying(host, d, left - 1)
                } else {
                    Stage::Advertising
                },
                Err(x) => Stage::Failed(EnsureError::Deploy(x)),
            },
            (Stage::Advertising, Event::Advertised(_)) => Stage::Held(dep.singleton),
            (other, _) => other,
        };
        assert(next@ == stage_after(was, event@));
        Ensure { dep, me, now, stage: next }
    }
}

fn copies_of(dep: &Dep) -> (n: u32)
    ensures
        n == copies(dep@),
{
    if dep.replicas == 0 {
        1
    } else {
        dep.replicas
    }
}

} // verus!
