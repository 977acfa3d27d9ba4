//! The per-app dependency SDK: what an app depends on, the leases and claims that coordinate it,
//! and the steps by which a dependency is ensured.
//!
//! There is no global controller. Each app declares its direct dependencies and ensures them, then
//! holds a renewing lease, which is the distributed reference count.

use vstd::prelude::*;
use vstd::string::*;

pub mod coord;
pub mod coord_laws;
pub mod dep;
pub mod dep_laws;
pub mod ensure;
pub mod ensure_laws;
pub mod registry;

pub use coord::{Claim, Lease};
pub use dep::{Dep, Place};
pub use registry::{MemRegistry, Registry};

use crate::driver::{CeDriver, DepReadiness, LOCAL_NODE};
use coord::{ClaimModel, LeaseModel};
use ensure::{Ensure, EnsureModel, StageModel};

verus! {

/// The dependency SDK of one app: a mesh driver, a registry, and the node it runs as.
pub struct Gke<D, R> {
    pub driver: D,
    pub registry: R,
    pub me: String,
}

impl Gke<CeDriver, MemRegistry> {
    /// Drives the node on this machine with an empty in-process registry.
    pub fn local(me: &str) -> (g: Gke<CeDriver, MemRegistry>)
        ensures
            g.driver.node@ == LOCAL_NODE@,
            forall|s: Seq<char>| #[trigger] g.registry.leases_on(s) == Seq::<LeaseModel>::empty(),
            forall|s: Seq<char>| #[trigger] g.registry.claims_on(s) == Seq::<ClaimModel>::empty(),
            g.me@ == me@,
    {
        Gke::new(CeDriver::new(LOCAL_NODE), MemRegistry::new(), me)
    }
}

impl<D, R> Gke<D, R> {
    /// The SDK over a mesh driver and a registry, running as the node `me`.
    pub fn new(driver: D, registry: R, me: &str) -> (g: Gke<D, R>)
        ensures
            g.driver == driver,
            g.registry == registry,
            g.me@ == me@,
    {
        Gke { driver, registry, me: me.to_owned() }
    }

    /// Starts to ensure `dep` for this app's node.
    pub fn ensure(&self, dep: Dep, now: u64) -> (e: Ensure)
        ensures
            e@ == (EnsureModel { dep: dep@, me: self.me@, now, stage: StageModel::Leasing }),
    {
        Ensure::start(dep, self.me.as_str(), now)
    }
}

/// Milliseconds between two looks at a service that is waited for.
pub const POLL_MILLIS: u64 = 500;

/// What to do after a look at a service that is waited for.
#[derive(Debug, PartialEq, Eq)]
pub enum WaitStep {
    /// Return: it is healthy.
    Ready,
    /// Return: it is not healthy, and the time is up.
    TimedOut,
    /// Return the failure of the look.
    Failed(String),
    /// Look again after so many milliseconds.
    Sleep(u64),
}

/// What a look at a service leads to.
pub open spec fn step_after(look: Result<DepReadiness, String>, time_is_up: bool) -> WaitStep {
    match look {
        Err(m) => WaitStep::Failed(m),
        Ok(DepReadiness::Healthy) => WaitStep::Ready,
        Ok(_) => if time_is_up {
            WaitStep::TimedOut
        } else {
            WaitStep::Sleep(500)
        },
    }
}

/// What to do after a look at a service: a healthy service ends the wait even where the time is
/// up, a failed look ends it at once, and else the wait goes on until the time is up.
pub fn wait_step(look: Result<DepReadiness, String>, time_is_up: bool) -> (s: WaitStep)
    ensures
        s == step_after(look, time_is_up),
{
    match look {
        Err(m) => WaitStep::Failed(m),
        Ok(DepReadiness::Healthy) => WaitStep::Ready,
        Ok(_) => if time_is_up {
            WaitStep::TimedOut
        } else {
            WaitStep::Sleep(POLL_MILLIS)
        },
    }
}

/// A held lease on a dependency: what is leased, by whom, where it is recorded and for how long.
/// The lease is renewed every [`Handle::renew_secs`] while it is held and dropped at the end. The
/// owner of a singleton renews its claim along with it; a claim that lost is not renewed, and
/// lapses.
pub struct Handle<R> {
    pub service: String,
    pub holder: String,
    pub registry: R,
    pub ttl: u64,
    /// Whether the holder owns the dependency, a singleton, by its claim.
    pub owner: bool,
}

/// Seconds between two renewals of a lease: half its time to live, at least one.
pub open spec fn renewal_period(ttl: u64) -> u64 {
    dep::at_least_one((ttl / 2) as nat) as u64
}

impl<R> Handle<R> {
    /// A handle on a lease that `holder` has on `service`, and on the claim where it is the owner.
    pub fn start(
        registry: R,
        service: String,
        holder: String,
        ttl: u64,
        owner: bool,
    ) -> (h: Handle<R>)
        ensures
            h.registry == registry,
            h.service@ == service@,
            h.holder@ == holder@,
            h.ttl == ttl,
            h.owner == owner,
    {
        Handle { service, holder, registry, ttl, owner }
    }

    /// The mesh service name of the dependency that this handle holds.
    pub fn service(&self) -> (s: &str)
        ensures
            s@ == self.service@,
    {
        self.service.as_str()
    }

    /// Seconds between two renewals.
    pub fn renew_secs(&self) -> (n: u64)
        ensures
            n == renewal_period(self.ttl),
    {
        let half: u64 = self.ttl / 2;
        if half == 0 {
            1
        } else {
            half
        }
    }

    /// The lease that a renewal at `now` records.
    pub fn renewal(&self, now: u64) -> (l: Lease)
        ensures
            l@ == coord::lease_at(self.service@, self.holder@, self.ttl, now),
    {
        Lease::new(self.service.as_str(), self.holder.as_str(), self.ttl, now)
    }

    /// The claim that a renewal at `now` records: the owner's, and nobody else's.
    pub fn claim_renewal(&self, now: u64) -> (c: Option<Claim>)
        ensures
            match c {
                Some(c) => self.owner && c@ == coord::claim_at(
                    self.service@,
                    self.holder@,
                    self.ttl,
                    now,
                ),
                None => !self.owner,
            },
    {
        if self.owner {
            Some(Claim::new(self.service.as_str(), self.holder.as_str(), self.ttl, now))
        } else {
            None
        }
    }
}

impl Ensure {
    /// The handle on a dependency that was ensured; `None` unless it is held.
    pub fn into_handle<R>(self, registry: R) -> (h: Option<Handle<R>>)
        ensures
            match h {
                Some(h) => self@.stage is Held && h.registry == registry && h.service@
                    == dep::service_name(self@.dep) && h.holder@ == self@.me && h.ttl
                    == self@.dep.lease_ttl_secs && h.owner == self@.stage->Held_0,
                None => !(self@.stage is Held),
            },
    {
        match self.stage {
            ensure::Stage::Held(owner) => {
                let service: String = self.dep.service();
                Some(Handle::start(registry, service, self.me, self.dep.lease_ttl_secs, owner))
            },
            _ => None,
        }
    }
}

/// A lease or a claim that is renewed on time never lapses in between: it is still live when the
/// next renewal is due. Left out are those of a single second, whose renewal comes when they lapse,
/// and clocks so late that the expiry cannot be represented.
pub proof fn renewals_come_in_time(service: Seq<char>, holder: Seq<char>, ttl: u64, now: u64)
    requires
        ttl >= 2,
        now + renewal_period(ttl) < u64::MAX,
    ensures
        coord::lease_at(service, holder, ttl, now).live((now + renewal_period(ttl)) as u64),
        coord::claim_at(service, holder, ttl, now).live((now + renewal_period(ttl)) as u64),
{
}

/// A lease is renewed twice in its time, as far as whole seconds go, and never more often than
/// every second.
pub proof fn a_lease_is_renewed_at_half_its_time(ttl: u64)
    ensures
        renewal_period(ttl) >= 1,
        ttl >= 2 ==> 2 * renewal_period(ttl) <= ttl < 2 * renewal_period(ttl) + 2,
        ttl < 2 ==> renewal_period(ttl) == 1,
{
}

/// A wait ends with success if and only if the service is healthy, however late; with the failure
/// of a look if and only if one failed; with a time-out only where the time is up; and it goes on
/// exactly while the service is not healthy, the look did not fail and there is time.
pub proof fn how_a_wait_ends(look: Result<DepReadiness, String>, time_is_up: bool)
    ensures
        ({
            let s = step_after(look, time_is_up);
            let healthy = look matches Ok(x) && x == DepReadiness::Healthy;
            &&& s is Ready <==> healthy
            &&& s is Failed <==> look is Err
            &&& s matches WaitStep::Failed(m) ==> look == Err::<DepReadiness, String>(m)
            &&& s is TimedOut <==> look is Ok && !healthy && time_is_up
            &&& s is Sleep <==> look is Ok && !healthy && !time_is_up
            &&& s matches WaitStep::Sleep(millis) ==> millis == POLL_MILLIS
        }),
{
}

} // verus!
