//! The commands of the command line: what each does to the store, what it decides, and what it
//! says. The program around it performs the mesh calls and prints.

use vstd::prelude::*;
use vstd::string::*;
use vstd::utf8::*;

use crate::reconcile::{tally_phases, Phase, ReplicaModel, ReplicaState};
use crate::spec::{Deployment, DeploymentModel, SpecError};
use crate::state::{ManagedDeployment, ManagedModel, Store};
use crate::text::{around, clone_opt, decimal_text};

verus! {

/// The first twelve characters of a text, or all of it.
pub open spec fn shortened(s: Seq<char>) -> Seq<char> {
    if s.len() <= 12 {
        s
    } else {
        s.take(12)
    }
}

/// The first twelve characters of `s`, for display.
pub fn short(s: &str) -> (r: String)
    ensures
        r@ == shortened(s@),
{
    let n: usize = s.unicode_len();
    if n <= 12 {
        s.to_owned()
    } else {
        let head: &str = s.substring_char(0, 12);
        assert(head@ =~= s@.take(12));
        head.to_owned()
    }
}

/// Where a text is cut to leave room for an ellipsis in `n` bytes.
pub open spec fn cut_at(n: nat) -> nat {
    if n < 3 {
        0
    } else {
        (n - 3) as nat
    }
}

/// Whether a text can be brought to `n` bytes: it fits, or the cut falls between two characters.
pub open spec fn can_truncate(s: Seq<char>, n: nat) -> bool {
    encode_utf8(s).len() <= n || is_char_boundary(encode_utf8(s), cut_at(n) as int)
}

/// A text in `n` bytes: itself if it fits, else its first `n - 3` bytes and an ellipsis.
pub open spec fn truncated(s: Seq<char>, n: nat) -> Seq<char> {
    if encode_utf8(s).len() <= n {
        s
    } else {
        decode_utf8(encode_utf8(s).take(cut_at(n) as int)) + "..."@
    }
}

/// `s` in at most `n` bytes (three, where `n` is less): cut short and marked with an ellipsis
/// where it is longer.
pub fn truncate(s: &str, n: usize) -> (r: String)
    requires
        can_truncate(s@, n as nat),
    ensures
        r@ == truncated(s@, n as nat),
{
    if s.as_bytes().len() <= n {
        s.to_owned()
    } else {
        let cut: usize = if n < 3 { 0 } else { n - 3 };
        let (head, _) = s.split_at(cut);
        proof {
            assert(encode_utf8(head@) =~= encode_utf8(s@).take(cut as int));
            encode_utf8_decode_utf8(head@);
        }
        let mut r: String = head.to_owned();
        r.append("...");
        r
    }
}

/// What is said of `n` failures of a kind; nothing where there are none.
pub open spec fn failure_note(kind: Seq<char>, n: nat) -> Seq<char> {
    if n == 0 {
        Seq::empty()
    } else {
        ", "@ + crate::text::decimal(n) + " "@ + kind + " failure(s)"@
    }
}

/// What is said of `n` failures of a kind.
pub fn fail_note(kind: &str, n: u32) -> (r: String)
    ensures
        r@ == failure_note(kind@, n as nat),
{
    if n == 0 {
        String::new()
    } else {
        let mut r: String = ", ".to_owned();
        r.append(decimal_text(n as u64).as_str());
        r.append(" ");
        r.append(kind);
        r.append(" failure(s)");
        r
    }
}

/// Why a command is refused.
#[derive(Debug, PartialEq, Eq)]
pub enum CommandError {
    /// There is no deployment of that name.
    NoDeployment(String),
    /// There is no deployment of that name to scale.
    NothingToScale(String),
    /// The deployment to reconcile is gone.
    Vanished,
}

impl CommandError {
    /// What is said of the refusal.
    pub fn message(&self) -> (s: String)
        ensures
            s@ == match self {
                CommandError::NoDeployment(n) => "no deployment named '"@ + n@ + "'"@,
                CommandError::NothingToScale(n) => "no deployment named '"@ + n@
                    + "' (apply one first)"@,
                CommandError::Vanished => "deployment vanished"@,
            },
    {
        match self {
            CommandError::NoDeployment(n) => around("no deployment named '", n.as_str(), "'"),
            CommandError::NothingToScale(n) => around(
                "no deployment named '",
                n.as_str(),
                "' (apply one first)",
            ),
            CommandError::Vanished => "deployment vanished".to_owned(),
        }
    }
}

/// What `apply` says of the spec it applies.
pub open spec fn apply_text(d: DeploymentModel) -> Seq<char> {
    "Applying deployment '"@ + d.name + "' (image "@ + d.image + ", "@ + crate::text::decimal(
        d.replicas as nat,
    ) + " replica(s))"@
}

/// Applies a parsed manifest: a valid spec is upserted, an invalid one leaves the store alone.
/// Returns the name to reconcile and what to say.
pub fn apply(store: &mut Store, parsed: Result<Deployment, String>, grant: Option<String>) -> (r:
    Result<(String, String), SpecError>)
    requires
        old(store).wf(),
    ensures
        final(store).wf(),
        match crate::spec::manifest_outcome(crate::spec::parsed_model(parsed)) {
            Ok(d) => r matches Ok(said) && said.0@ == d.name && said.1@ == apply_text(d)
                && final(store)@ == old(store)@.insert(
                d.name,
                crate::state::upserted(old(store)@, d, crate::text::opt_text(grant)),
            ),
            Err(p) => r matches Err(e) && e@ == p && final(store)@ == old(store)@,
        },
{
    match Deployment::from_parsed(parsed) {
        Err(e) => Err(e),
        Ok(spec) => {
            let name: String = spec.name.clone();
            let mut said: String = around(
                "Applying deployment '",
                spec.name.as_str(),
                "' (image ",
            );
            said.append(spec.image.as_str());
            said.append(", ");
            said.append(decimal_text(spec.replicas as u64).as_str());
            said.append(" replica(s))");
            store.upsert(spec, grant);
            Ok((name, said))
        },
    }
}

/// What `scale` says.
pub open spec fn scale_text(name: Seq<char>, old_count: u32, new_count: u32) -> Seq<char> {
    "Scaling '"@ + name + "': "@ + crate::text::decimal(old_count as nat) + " -> "@
        + crate::text::decimal(new_count as nat) + " replica(s)"@
}

/// A managed deployment with another replica count.
pub open spec fn scaled(m: ManagedModel, replicas: u32) -> ManagedModel {
    ManagedModel { spec: DeploymentModel { replicas, ..m.spec }, ..m }
}

/// Changes the replica count of a deployment and nothing else. Returns what to say.
pub fn scale(store: &mut Store, name: &str, replicas: u32) -> (r: Result<String, CommandError>)
    requires
        old(store).wf(),
    ensures
        final(store).wf(),
        match r {
            Ok(said) => old(store)@.contains_key(name@) && said@ == scale_text(
                name@,
                old(store)@[name@].spec.replicas,
                replicas,
            ) && final(store)@ == old(store)@.insert(
                name@,
                scaled(old(store)@[name@], replicas),
            ),
            Err(e) => !old(store)@.contains_key(name@) && final(store)@ == old(store)@ && (e matches
                CommandError::NothingToScale(n) && n@ == name@),
        },
{
    match store.get_mut(name) {
        None => Err(CommandError::NothingToScale(name.to_owned())),
        Some(managed) => {
            let was: u32 = managed.spec.replicas;
            managed.spec.replicas = replicas;
            let mut said: String = around("Scaling '", name, "': ");
            said.append(decimal_text(was as u64).as_str());
            said.append(" -> ");
            said.append(decimal_text(replicas as u64).as_str());
            said.append(" replica(s)");
            Ok(said)
        },
    }
}

/// Checks that there is a deployment to reconcile. Returns what to say.
pub fn rollout(store: &Store, name: &str) -> (r: Result<String, CommandError>)
    requires
        store.wf(),
    ensures
        match r {
            Ok(said) => store@.contains_key(name@) && said@ == "Reconciling '"@ + name@ + "'..."@,
            Err(e) => !store@.contains_key(name@) && (e matches CommandError::NoDeployment(n) && n@
                == name@),
        },
{
    match store.get(name) {
        None => Err(CommandError::NoDeployment(name.to_owned())),
        Some(_) => Ok(around("Reconciling '", name, "'...")),
    }
}

/// One line to print, on the standard output or as a warning on the standard error.
#[derive(Debug, PartialEq, Eq)]
pub enum Line {
    Out(String),
    Warn(String),
}

/// What a [`Line`] says.
pub enum LineModel {
    Out(Seq<char>),
    Warn(Seq<char>),
}

impl View for Line {
    type V = LineModel;

    open spec fn view(&self) -> LineModel {
        match self {
            Line::Out(s) => LineModel::Out(s@),
            Line::Warn(s) => LineModel::Warn(s@),
        }
    }
}

/// The grant to forward: the deployment's own, or else the one given on the command line.
pub open spec fn grant_to_use(own: Option<Seq<char>>, given: Option<Seq<char>>) -> Option<
    Seq<char>,
> {
    if own is Some {
        own
    } else {
        given
    }
}

fn grant_for(own: &Option<String>, given: &Option<String>) -> (g: Option<String>)
    ensures
        crate::text::opt_text(g) == grant_to_use(
            crate::text::opt_text(*own),
            crate::text::opt_text(*given),
        ),
{
    if own.is_some() {
        clone_opt(own)
    } else {
        clone_opt(given)
    }
}

/// A deployment being deleted: its replicas are killed one after the other.
#[derive(Debug)]
pub struct Deletion {
    pub name: String,
    pub replicas: Vec<ReplicaState>,
    /// The grant to forward with each kill.
    pub grant: Option<String>,
    /// How many kills were tried.
    pub tried: usize,
    /// How many of them failed.
    pub failures: usize,
}

impl Deletion {
    /// No more kills were tried than there are replicas, and no more failed than were tried.
    pub open spec fn wf(&self) -> bool {
        self.failures <= self.tried <= self.replicas@.len()
    }

    /// The replicas whose kill was not tried yet, in the order in which they come up.
    pub open spec fn left(&self) -> Seq<ReplicaModel> {
        crate::reconcile::replica_models(self.replicas@).skip(self.tried as int)
    }

    /// Takes the deployment out of the store, to kill its replicas. Returns what to say, too.
    pub fn begin(store: &mut Store, name: &str, given: &Option<String>) -> (r: Result<
        (Deletion, String),
        CommandError,
    >)
        requires
            old(store).wf(),
        ensures
            final(store).wf(),
            final(store)@ == old(store)@.remove(name@),
            match r {
                Ok(x) => old(store)@.contains_key(name@) && x.0.wf() && x.0.name@ == name@
                    && crate::reconcile::replica_models(x.0.replicas@)
                    == old(store)@[name@].replicas && x.0.left() == old(store)@[name@].replicas
                    && crate::text::opt_text(x.0.grant)
                    == grant_to_use(old(store)@[name@].grant, crate::text::opt_text(*given))
                    && x.0.tried == 0 && x.0.failures == 0 && x.1@ == "Deleting '"@ + name@
                    + "': killing "@ + crate::text::decimal(x.0.replicas@.len())
                    + " replica(s)"@,
                Err(e) => !old(store)@.contains_key(name@) && (e matches CommandError::NoDeployment(
                    n,
                ) && n@ == name@),
            },
    {
        match store.remove(name) {
            None => Err(CommandError::NoDeployment(name.to_owned())),
            Some(managed) => {
                let grant: Option<String> = grant_for(&managed.grant, given);
                let mut said: String = around("Deleting '", name, "': killing ");
                said.append(decimal_text(managed.replicas.len() as u64).as_str());
                said.append(" replica(s)");
                Ok(
                    (
                        Deletion {
                            name: name.to_owned(),
                            replicas: managed.replicas,
                            grant,
                            tried: 0,
                            failures: 0,
                        },
                        said,
                    ),
                )
            },
        }
    }

    /// The replica to kill next; `None` once every kill was tried.
    pub fn next(&self) -> (r: Option<&ReplicaState>)
        requires
            self.wf(),
        ensures
            match r {
                Some(x) => self.left().len() > 0 && x@ == self.left()[0],
                None => self.left().len() == 0,
            },
    {
        if self.tried < self.replicas.len() {
            Some(&self.replicas[self.tried])
        } else {
            None
        }
    }

    /// Takes the outcome of a kill. Returns the line to print.
    pub fn record(&mut self, outcome: Result<(), String>) -> (line: Line)
        requires
            old(self).wf(),
            old(self).left().len() > 0,
        ensures
            final(self).wf(),
            final(self).left() == old(self).left().skip(1),
            final(self).name == old(self).name,
            final(self).replicas == old(self).replicas,
            final(self).grant == old(self).grant,
            final(self).tried == old(self).tried + 1,
            final(self).failures == old(self).failures + if outcome is Err {
                1int
            } else {
                0int
            },
            ({
                let x = old(self).left()[0];
                line@ == match outcome {
                    Ok(_) => LineModel::Out(
                        "  killed "@ + shortened(x.job_id) + " on "@ + shortened(x.node_id),
                    ),
                    Err(m) => LineModel::Warn(
                        "  warning: kill of "@ + shortened(x.job_id) + " failed: "@ + m@,
                    ),
                }
            }),
    {
        let job: String = short(self.replicas[self.tried].job_id.as_str());
        let node: String = short(self.replicas[self.tried].node_id.as_str());
        assert(self.tried < self.replicas.len());
        self.tried = self.tried + 1;
        match outcome {
            Ok(_) => {
                let mut s: String = around("  killed ", job.as_str(), " on ");
                s.append(node.as_str());
                Line::Out(s)
            },
            Err(m) => {
                self.failures = self.failures + 1;
                let mut s: String = around("  warning: kill of ", job.as_str(), " failed: ");
                s.append(m.as_str());
                Line::Warn(s)
            },
        }
    }

    /// The warning at the end, where kills failed.
    pub fn warning(&self) -> (line: Option<Line>)
        ensures
            match line {
                Some(l) => self.failures > 0 && l@ == LineModel::Warn(
                    crate::text::decimal(self.failures as nat)
                        + " replica(s) could not be killed (host may already have reaped them)."@,
                ),
                None => self.failures == 0,
            },
    {
        if self.failures > 0 {
            let mut s: String = decimal_text(self.failures as u64);
            s.append(" replica(s) could not be killed (host may already have reaped them).");
            Some(Line::Warn(s))
        } else {
            None
        }
    }

    /// The last line.
    pub fn farewell(&self) -> (line: Line)
        ensures
            line@ == LineModel::Out("Deleted '"@ + self.name@ + "'."@),
    {
        Line::Out(around("Deleted '", self.name.as_str(), "'."))
    }
}

/// What one reconcile tick did.
#[derive(Clone, Copy, Debug, PartialEq, Eq, Structural)]
pub struct TickReport {
    pub placed: usize,
    pub killed: usize,
    pub place_failures: u32,
    pub kill_failures: u32,
    /// Whether the deployment matches its spec.
    pub done: bool,
}

/// Whether a tick did or tried anything.
pub open spec fn eventful(t: TickReport) -> bool {
    t.placed > 0 || t.killed > 0 || t.place_failures > 0 || t.kill_failures > 0
}

/// What is said of an eventful tick.
pub open spec fn tick_text(tick: u32, t: TickReport) -> Seq<char> {
    "  tick "@ + crate::text::decimal(tick as nat) + ": +"@ + crate::text::decimal(
        t.placed as nat,
    ) + " placed, -"@ + crate::text::decimal(t.killed as nat) + " killed"@ + failure_note(
        "place"@,
        t.place_failures as nat,
    ) + failure_note("kill"@, t.kill_failures as nat)
}

/// What is to be done after a tick.
#[derive(Debug)]
pub struct AfterTick {
    /// The line to print, if the tick was eventful.
    pub line: Option<String>,
    /// The seconds to wait before the next tick; none once the deployment has converged.
    pub wait: Option<u64>,
}

/// A deployment being driven to its spec, tick by tick, within a budget of ticks.
#[derive(Debug)]
pub struct Convergence {
    pub name: String,
    pub spec: Deployment,
    pub grant: Option<String>,
    pub replicas: Vec<ReplicaState>,
    pub max_ticks: u32,
    pub interval: u64,
    /// How many ticks were run.
    pub tick: u32,
    pub converged: bool,
}

/// What a [`Convergence`] says.
pub struct ConvergenceModel {
    pub name: Seq<char>,
    pub spec: DeploymentModel,
    pub grant: Option<Seq<char>>,
    pub replicas: Seq<ReplicaModel>,
    pub max_ticks: u32,
    pub interval: u64,
    pub tick: u32,
    pub converged: bool,
}

impl View for Convergence {
    type V = ConvergenceModel;

    open spec fn view(&self) -> ConvergenceModel {
        ConvergenceModel {
            name: self.name@,
            spec: self.spec@,
            grant: crate::text::opt_text(self.grant),
            replicas: crate::reconcile::replica_models(self.replicas@),
            max_ticks: self.max_ticks,
            interval: self.interval,
            tick: self.tick,
            converged: self.converged,
        }
    }
}

/// Whether another tick is to be run: the deployment has not converged and the budget is not
/// spent.
pub open spec fn ticking(c: ConvergenceModel) -> bool {
    !c.converged && c.tick < c.max_ticks
}

/// Where a tick leads that left `replicas` behind.
pub open spec fn ticked(
    c: ConvergenceModel,
    replicas: Seq<ReplicaModel>,
    t: TickReport,
) -> ConvergenceModel {
    ConvergenceModel { replicas, tick: (c.tick + 1) as u32, converged: t.done, ..c }
}

/// The seconds to wait after a tick: at least one, and none at all once the deployment is done.
pub open spec fn pause_after(interval: u64, t: TickReport) -> Option<u64> {
    if t.done {
        None
    } else if interval == 0 {
        Some(1)
    } else {
        Some(interval)
    }
}

/// The store with the replica handles of `name` replaced, if it holds the name.
pub open spec fn with_handles(
    store: Map<Seq<char>, ManagedModel>,
    name: Seq<char>,
    replicas: Seq<ReplicaModel>,
) -> Map<Seq<char>, ManagedModel> {
    if store.contains_key(name) {
        store.insert(name, ManagedModel { replicas, ..store[name] })
    } else {
        store
    }
}

/// What is said at the end.
pub open spec fn summary_texts(c: ConvergenceModel) -> Seq<Seq<char>> {
    let pending = crate::text::decimal(crate::reconcile::count_phase(c.replicas, Phase::Pending));
    let running = crate::text::decimal(crate::reconcile::count_phase(c.replicas, Phase::Running));
    let terminal = crate::text::decimal(
        crate::reconcile::count_phase(c.replicas, Phase::Failed) + crate::reconcile::count_phase(
            c.replicas,
            Phase::Settled,
        ),
    );
    if c.converged {
        seq!["'"@ + c.name + "' converged: "@ + running + " running."@]
    } else {
        seq![
            "'"@ + c.name + "' not fully converged within "@ + crate::text::decimal(
                c.max_ticks as nat,
            ) + " ticks: "@ + running + " running, "@ + pending + " pending, "@ + terminal
                + " terminal."@,
            "Re-run `ce-gke rollout "@ + c.name + "` to continue."@,
        ]
    }
}

impl Convergence {
    /// Starts to drive the deployment `name`, from the handles that the store holds for it.
    pub fn start(
        store: &Store,
        name: &str,
        given: &Option<String>,
        max_ticks: u32,
        interval: u64,
    ) -> (r: Result<Convergence, CommandError>)
        requires
            store.wf(),
        ensures
            match r {
                Ok(c) => store@.contains_key(name@) && c@ == (ConvergenceModel {
                    name: name@,
                    spec: store@[name@].spec,
                    grant: grant_to_use(store@[name@].grant, crate::text::opt_text(*given)),
                    replicas: store@[name@].replicas,
                    max_ticks,
                    interval,
                    tick: 0,
                    converged: false,
                }),
                Err(e) => !store@.contains_key(name@) && e is Vanished,
            },
    {
        match store.get(name) {
            None => Err(CommandError::Vanished),
            Some(m) => {
                let managed: ManagedDeployment = m.clone();
                let grant: Option<String> = grant_for(&managed.grant, given);
                Ok(
                    Convergence {
                        name: name.to_owned(),
                        spec: managed.spec,
                        grant,
                        replicas: managed.replicas,
                        max_ticks,
                        interval,
                        tick: 0,
                        converged: false,
                    },
                )
            },
        }
    }

    /// Whether another tick is to be run.
    pub fn ticks_on(&self) -> (r: bool)
        ensures
            r == ticking(self@),
    {
        !self.converged && self.tick < self.max_ticks
    }

    /// Takes what a tick did and the replicas it left behind, and writes the handles back to the
    /// store, so that nothing is lost if the program dies during a rollout.
    pub fn after_tick(&mut self, store: &mut Store, replicas: Vec<ReplicaState>, t: TickReport) -> (r:
        AfterTick)
        requires
            old(store).wf(),
            ticking(old(self)@),
        ensures
            final(store).wf(),
            final(store)@ == with_handles(
                old(store)@,
                old(self)@.name,
                crate::reconcile::replica_models(replicas@),
            ),
            final(self)@ == ticked(
                old(self)@,
                crate::reconcile::replica_models(replicas@),
                t,
            ),
            crate::text::opt_text(r.line) == if eventful(t) {
                Some(tick_text(old(self)@.tick, t))
            } else {
                None
            },
            r.wait == pause_after(old(self)@.interval, t),
    {
        let line: Option<String> = if t.placed > 0 || t.killed > 0 || t.place_failures > 0
            || t.kill_failures > 0 {
            let mut s: String = around("  tick ", decimal_text(self.tick as u64).as_str(), ": +");
            s.append(decimal_text(t.placed as u64).as_str());
            s.append(" placed, -");
            s.append(decimal_text(t.killed as u64).as_str());
            s.append(" killed");
            s.append(fail_note("place", t.place_failures).as_str());
            s.append(fail_note("kill", t.kill_failures).as_str());
            Some(s)
        } else {
            None
        };
        let handles: Vec<ReplicaState> = crate::reconcile::clone_replicas(&replicas);
        if let Some(m) = store.get_mut(self.name.as_str()) {
            m.replicas = handles;
        }
        self.replicas = replicas;
        self.tick = self.tick + 1;
        self.converged = t.done;
        let wait: Option<u64> = if t.done {
            None
        } else if self.interval == 0 {
            Some(1)
        } else {
            Some(self.interval)
        };
        AfterTick { line, wait }
    }

    /// What to say at the end.
    pub fn summary(&self) -> (lines: Vec<String>)
        ensures
            crate::text::texts(lines@) == summary_texts(self@),
    {
        let (pending, running, terminal) = tally_phases(&self.replicas);
        let mut lines: Vec<String> = Vec::new();
        if self.converged {
            let mut s: String = around("'", self.name.as_str(), "' converged: ");
            s.append(decimal_text(running as u64).as_str());
            s.append(" running.");
            lines.push(s);
        } else {
            let mut s: String = around("'", self.name.as_str(), "' not fully converged within ");
            s.append(decimal_text(self.max_ticks as u64).as_str());
            s.append(" ticks: ");
            s.append(decimal_text(running as u64).as_str());
            s.append(" running, ");
            s.append(decimal_text(pending as u64).as_str());
            s.append(" pending, ");
            s.append(decimal_text(terminal as u64).as_str());
            s.append(" terminal.");
            lines.push(s);
            lines.push(around("Re-run `ce-gke rollout ", self.name.as_str(), "` to continue."));
        }
        assert(crate::text::texts(lines@) =~= summary_texts(self@));
        lines
    }
}

/// What `get` says where there is nothing to show.
pub const NO_DEPLOYMENTS: &'static str = "No deployments. Apply one with `ce-gke apply -f deploy.yaml`.";

/// The deployments that `get` shows: the one asked for, or all in name order.
pub fn names_to_show(store: &Store, name: Option<&str>) -> (r: Result<Vec<String>, CommandError>)
    requires
        store.wf(),
    ensures
        match (name, r) {
            (Some(n), Ok(v)) => store@.contains_key(n@) && crate::text::texts(v@) == seq![n@],
            (Some(n), Err(e)) => !store@.contains_key(n@) && (e matches CommandError::NoDeployment(
                m,
            ) && m@ == n@),
            (None, Ok(v)) => crate::state::ascending(crate::text::texts(v@)) && forall|k: Seq<char>|
                #[trigger] crate::text::texts(v@).contains(k) <==> store@.contains_key(k),
            (None, Err(_)) => false,
        },
{
    match name {
        None => Ok(store.names()),
        Some(n) => match store.get(n) {
            None => Err(CommandError::NoDeployment(n.to_owned())),
            Some(_) => {
                let mut v: Vec<String> = Vec::new();
                v.push(n.to_owned());
                assert(crate::text::texts(v@) =~= seq![n@]);
                Ok(v)
            },
        },
    }
}

/// The phases to show: what the mesh says, or else what was last seen.
pub open spec fn shown_phases(replicas: Seq<ReplicaModel>, live: Seq<Option<Phase>>) -> Seq<Phase> {
    Seq::new(
        replicas.len(),
        |i: int|
            match live[i] {
                Some(p) => p,
                None => replicas[i].phase,
            },
    )
}

/// How many replicas run, by [`shown_phases`].
pub open spec fn running_count(replicas: Seq<ReplicaModel>, live: Seq<Option<Phase>>) -> nat {
    shown_phases(replicas, live).filter(|p: Phase| p == Phase::Running).len()
}

/// How many replicas run, going by what the mesh says of each and, where it says nothing, by what
/// was last seen.
pub fn ready_count(replicas: &Vec<ReplicaState>, live: &Vec<Option<Phase>>) -> (n: usize)
    requires
        replicas@.len() == live@.len(),
    ensures
        n == running_count(crate::reconcile::replica_models(replicas@), live@),
{
    let ghost shown = shown_phases(crate::reconcile::replica_models(replicas@), live@);
    let ghost runs = |p: Phase| p == Phase::Running;
    let mut n: usize = 0;
    proof {
        reveal(Seq::filter);
        assert(shown.take(0) =~= Seq::<Phase>::empty());
    }
    for i in 0..replicas.len()
        invariant
            replicas@.len() == live@.len(),
            shown == shown_phases(crate::reconcile::replica_models(replicas@), live@),
            runs == (|p: Phase| p == Phase::Running),
            n == shown.take(i as int).filter(runs).len(),
            n <= i,
    {
        proof {
            reveal(Seq::filter);
            assert(shown.take(i + 1).drop_last() =~= shown.take(i as int));
            assert(shown.take(i + 1).last() == shown[i as int]);
        }
        let phase: Phase = match live[i] {
            Some(p) => p,
            None => replicas[i].phase,
        };
        if phase == Phase::Running {
            n = n + 1;
        }
    }
    assert(shown.take(replicas.len() as int) =~= shown);
    n
}

/// So many spaces.
pub open spec fn spaces(n: nat) -> Seq<char> {
    Seq::new(n, |i: int| ' ')
}

/// The spaces that bring a text of `len` characters to `width`.
pub open spec fn padding(len: nat, width: nat) -> Seq<char> {
    spaces(
        if len < width {
            (width - len) as nat
        } else {
            0
        },
    )
}

/// Five columns: two to the left, two to the right, one to the left, each padded to its width.
pub open spec fn columns(
    a: Seq<char>,
    b: Seq<char>,
    c: Seq<char>,
    d: Seq<char>,
    e: Seq<char>,
) -> Seq<char> {
    a + padding(a.len(), 20) + "  "@ + b + padding(b.len(), 24) + "  "@ + padding(c.len(), 8) + c
        + "  "@ + padding(d.len(), 9) + d + "  "@ + e + padding(e.len(), 16)
}

fn pad(s: &mut String, text: &str, width: usize)
    ensures
        final(s)@ == old(s)@ + padding(text@.len(), width as nat),
{
    let len: usize = text.unicode_len();
    let mut n: usize = len;
    assert(s@ + spaces(0) =~= s@);
    while n < width
        invariant
            len == text@.len(),
            len <= n,
            n <= width || n == len,
            s@ == old(s)@ + spaces((n - len) as nat),
        decreases width - n,
    {
        s.append(" ");
        proof {
            reveal_strlit(" ");
            assert(s@ =~= old(s)@ + spaces((n + 1 - len) as nat));
        }
        n = n + 1;
    }
}

/// One line of the table.
pub fn table_line(a: &str, b: &str, c: &str, d: &str, e: &str) -> (s: String)
    ensures
        s@ == columns(a@, b@, c@, d@, e@),
{
    let mut s: String = a.to_owned();
    pad(&mut s, a, 20);
    s.append("  ");
    s.append(b);
    pad(&mut s, b, 24);
    s.append("  ");
    pad(&mut s, c, 8);
    s.append(c);
    s.append("  ");
    pad(&mut s, d, 9);
    s.append(d);
    s.append("  ");
    s.append(e);
    pad(&mut s, e, 16);
    s
}

/// The head of the table.
pub fn table_head() -> (s: String)
    ensures
        s@ == columns("NAME"@, "IMAGE"@, "DESIRED"@, "READY"@, "REVISION"@),
{
    table_line("NAME", "IMAGE", "DESIRED", "READY", "REVISION")
}

/// The first line that `get` prints for the deployments to show: the head of the table, or that
/// there are none.
pub fn first_line(names: &Vec<String>) -> (s: String)
    ensures
        s@ == if names@.len() == 0 {
            NO_DEPLOYMENTS@
        } else {
            columns("NAME"@, "IMAGE"@, "DESIRED"@, "READY"@, "REVISION"@)
        },
{
    if names.len() == 0 {
        NO_DEPLOYMENTS.to_owned()
    } else {
        table_head()
    }
}

/// The line of a deployment of which so many replicas run.
pub open spec fn status_text(
    name: Seq<char>,
    spec: DeploymentModel,
    running: nat,
    revision: Seq<char>,
) -> Seq<char> {
    columns(
        truncated(name, 20),
        truncated(spec.image, 24),
        crate::text::decimal(spec.replicas as nat),
        crate::text::decimal(running) + "/"@ + crate::text::decimal(spec.replicas as nat),
        revision,
    )
}

/// The line of one deployment: its name and image, cut to the width of their columns, the desired
/// count, how many run out of it, and the revision.
pub fn table_row(name: &str, spec: &Deployment, running: usize, revision: &str) -> (s: String)
    requires
        can_truncate(name@, 20),
        can_truncate(spec@.image, 24),
    ensures
        s@ == status_text(name@, spec@, running as nat, revision@),
{
    let shown_name: String = truncate(name, 20);
    let image: String = truncate(spec.image.as_str(), 24);
    let desired: String = decimal_text(spec.replicas as u64);
    let ready: String = around(decimal_text(running as u64).as_str(), "/", desired.as_str());
    table_line(shown_name.as_str(), image.as_str(), desired.as_str(), ready.as_str(), revision)
}

/// The line of a managed deployment, from what the mesh says of each of its replicas.
pub fn status_line(name: &str, managed: &ManagedDeployment, live: &Vec<Option<Phase>>) -> (s: String)
    requires
        managed@.replicas.len() == live@.len(),
        can_truncate(name@, 20),
        can_truncate(managed@.spec.image, 24),
        crate::spec::template(managed@.spec).len() <= 0x1fff_ffff_ffff_ffff,
    ensures
        s@ == status_text(
            name@,
            managed@.spec,
            running_count(managed@.replicas, live@),
            crate::spec::label(crate::bytes::sha256(crate::spec::template(managed@.spec))),
        ),
{
    let running: usize = ready_count(&managed.replicas, live);
    let revision: String = managed.spec.revision();
    table_row(name, &managed.spec, running, revision.as_str())
}

} // verus!
