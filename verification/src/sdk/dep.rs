//! [`Dep`]: an in-code description of a dependency that an app wants. It is built fluently and
//! lowered to a deployment by way of a manifest.

use vstd::prelude::*;
use vstd::string::*;

use crate::spec::{Deployment, SpecError};
use crate::text::{clone_texts, decimal_text};

verus! {

/// Where a dependency should run.
#[derive(Debug, PartialEq, Eq)]
pub enum Place {
    /// Let placement pick.
    Auto,
    /// Pin to one node id.
    Node(String),
    /// Any node that advertises this tag.
    Tag(String),
}

/// What a [`Place`] says.
pub enum PlaceModel {
    Auto,
    Node(Seq<char>),
    Tag(Seq<char>),
}

impl View for Place {
    type V = PlaceModel;

    open spec fn view(&self) -> PlaceModel {
        match self {
            Place::Auto => PlaceModel::Auto,
            Place::Node(n) => PlaceModel::Node(n@),
            Place::Tag(t) => PlaceModel::Tag(t@),
        }
    }
}

impl Clone for Place {
    fn clone(&self) -> (p: Place)
        ensures
            p@ == self@,
    {
        match self {
            Place::Auto => Place::Auto,
            Place::Node(n) => Place::Node(n.clone()),
            Place::Tag(t) => Place::Tag(t.clone()),
        }
    }
}

impl Default for Place {
    fn default() -> (p: Place)
        ensures
            p@ == PlaceModel::Auto,
    {
        Place::Auto
    }
}

/// A dependency declaration.
#[derive(Debug)]
pub struct Dep {
    pub name: String,
    pub namespace: String,
    pub image: String,
    pub cmd: Vec<String>,
    pub replicas: u32,
    pub cpu_cores: u32,
    pub mem_mb: u32,
    pub duration_secs: u64,
    pub place: Place,
    /// A singleton has one owner, decided by claims; other dependencies place `replicas` copies.
    pub singleton: bool,
    /// TCP port to probe for readiness; none means ready as soon as placed.
    pub health_port: Option<u16>,
    /// How long each lease on the dependency is valid before it must be renewed.
    pub lease_ttl_secs: u64,
}

/// What a [`Dep`] says.
pub struct DepModel {
    pub name: Seq<char>,
    pub namespace: Seq<char>,
    pub image: Seq<char>,
    pub cmd: Seq<Seq<char>>,
    pub replicas: u32,
    pub cpu_cores: u32,
    pub mem_mb: u32,
    pub duration_secs: u64,
    pub place: PlaceModel,
    pub singleton: bool,
    pub health_port: Option<u16>,
    pub lease_ttl_secs: u64,
}

impl View for Dep {
    type V = DepModel;

    open spec fn view(&self) -> DepModel {
        DepModel {
            name: self.name@,
            namespace: self.namespace@,
            image: self.image@,
            cmd: crate::text::texts(self.cmd@),
            replicas: self.replicas,
            cpu_cores: self.cpu_cores,
            mem_mb: self.mem_mb,
            duration_secs: self.duration_secs,
            place: self.place@,
            singleton: self.singleton,
            health_port: self.health_port,
            lease_ttl_secs: self.lease_ttl_secs,
        }
    }
}

impl Clone for Dep {
    fn clone(&self) -> (d: Dep)
        ensures
            d@ == self@,
    {
        Dep {
            name: self.name.clone(),
            namespace: self.namespace.clone(),
            image: self.image.clone(),
            cmd: clone_texts(&self.cmd),
            replicas: self.replicas,
            cpu_cores: self.cpu_cores,
            mem_mb: self.mem_mb,
            duration_secs: self.duration_secs,
            place: self.place.clone(),
            singleton: self.singleton,
            health_port: self.health_port,
            lease_ttl_secs: self.lease_ttl_secs,
        }
    }
}

/// The dependency of that name with nothing else said.
pub open spec fn plain_dep(name: Seq<char>) -> DepModel {
    DepModel {
        name,
        namespace: "default"@,
        image: Seq::empty(),
        cmd: Seq::empty(),
        replicas: 1,
        cpu_cores: 1,
        mem_mb: 256,
        duration_secs: 86400,
        place: PlaceModel::Auto,
        singleton: false,
        health_port: None,
        lease_ttl_secs: 60,
    }
}

/// At least one.
pub open spec fn at_least_one(n: nat) -> nat {
    if n == 0 {
        1
    } else {
        n
    }
}

/// The mesh service name of a dependency.
pub open spec fn service_name(d: DepModel) -> Seq<char> {
    "ce-gke/"@ + d.namespace + "/"@ + d.name
}

/// The text that `{:?}` formatting gives for a string: quoted, with escapes.
pub uninterp spec fn debug_text(s: Seq<char>) -> Seq<char>;

/// Formats a string with `{:?}`, the `Debug` formatting of `str`. The quoted and escaped text is
/// named, not spelled out.
#[verifier::external_body]
fn debug_quoted(s: &str) -> (r: String)
    ensures
        r@ == debug_text(s@),
{
    format!("{:?}", s)
}

/// The words of a command, each quoted, between commas.
pub open spec fn quoted_words(words: Seq<Seq<char>>) -> Seq<char>
    decreases words.len(),
{
    if words.len() == 0 {
        Seq::empty()
    } else if words.len() == 1 {
        debug_text(words[0])
    } else {
        quoted_words(words.drop_last()) + ", "@ + debug_text(words.last())
    }
}

/// The manifest line of a command; an empty command has none.
pub open spec fn command_line(words: Seq<Seq<char>>) -> Seq<char> {
    if words.len() == 0 {
        Seq::empty()
    } else {
        "command: ["@ + quoted_words(words) + "]\n"@
    }
}

/// The manifest line of a placement; only a tag has one.
pub open spec fn select_line(place: PlaceModel) -> Seq<char> {
    match place {
        PlaceModel::Tag(t) => "select: ["@ + t + "]\n"@,
        _ => Seq::empty(),
    }
}

/// The manifest lines of a readiness probe.
pub open spec fn readiness_lines(port: Option<u16>) -> Seq<char> {
    match port {
        Some(p) => "readiness:\n  type: tcp\n  port: "@ + crate::text::decimal(p as nat) + "\n"@,
        None => Seq::empty(),
    }
}

/// The manifest of a dependency.
pub open spec fn manifest(d: DepModel) -> Seq<char> {
    "name: "@ + d.name + "\nnamespace: "@ + d.namespace + "\nimage: "@ + d.image + "\n"@
        + command_line(d.cmd) + "replicas: "@ + crate::text::decimal(d.replicas as nat)
        + "\nresources:\n  cpu_cores: "@ + crate::text::decimal(d.cpu_cores as nat)
        + "\n  mem_mb: "@ + crate::text::decimal(d.mem_mb as nat) + "\nduration_secs: "@
        + crate::text::decimal(d.duration_secs as nat) + "\nbid: \"1000000000000000000\"\n"@
        + select_line(d.place) + readiness_lines(d.health_port)
}

impl Dep {
    /// A new dependency named `name`, in the default namespace.
    pub fn new(name: &str) -> (d: Dep)
        ensures
            d@ == plain_dep(name@),
    {
        let d: Dep = Dep {
            name: name.to_owned(),
            namespace: "default".to_owned(),
            image: String::new(),
            cmd: Vec::new(),
            replicas: 1,
            cpu_cores: 1,
            mem_mb: 256,
            duration_secs: 24 * 60 * 60,
            place: Place::Auto,
            singleton: false,
            health_port: None,
            lease_ttl_secs: 60,
        };
        assert(d@.cmd =~= Seq::empty());
        d
    }

    /// In the namespace `ns`.
    pub fn namespace(self, ns: &str) -> (d: Dep)
        ensures
            d@ == (DepModel { namespace: ns@, ..self@ }),
    {
        Dep { namespace: ns.to_owned(), ..self }
    }

    /// Running `image`.
    pub fn image(self, image: &str) -> (d: Dep)
        ensures
            d@ == (DepModel { image: image@, ..self@ }),
    {
        Dep { image: image.to_owned(), ..self }
    }

    /// Running the command `c`.
    pub fn cmd(self, c: Vec<String>) -> (d: Dep)
        ensures
            d@ == (DepModel { cmd: crate::text::texts(c@), ..self@ }),
    {
        Dep { cmd: c, ..self }
    }

    /// With `n` replicas, at least one.
    pub fn replicas(self, n: u32) -> (d: Dep)
        ensures
            d@ == (DepModel { replicas: at_least_one(n as nat) as u32, ..self@ }),
    {
        Dep { replicas: if n == 0 { 1 } else { n }, ..self }
    }

    /// With `cpu_cores` cores and `mem_mb` MiB of memory, at least one of each.
    pub fn resources(self, cpu_cores: u32, mem_mb: u32) -> (d: Dep)
        ensures
            d@ == (DepModel {
                cpu_cores: at_least_one(cpu_cores as nat) as u32,
                mem_mb: at_least_one(mem_mb as nat) as u32,
                ..self@
            }),
    {
        Dep {
            cpu_cores: if cpu_cores == 0 { 1 } else { cpu_cores },
            mem_mb: if mem_mb == 0 { 1 } else { mem_mb },
            ..self
        }
    }

    /// For `secs` seconds, at least one.
    pub fn duration(self, secs: u64) -> (d: Dep)
        ensures
            d@ == (DepModel { duration_secs: at_least_one(secs as nat) as u64, ..self@ }),
    {
        Dep { duration_secs: if secs == 0 { 1 } else { secs }, ..self }
    }

    /// As a singleton: one owner, decided by claims, and one replica.
    pub fn singleton(self) -> (d: Dep)
        ensures
            d@ == (DepModel { singleton: true, replicas: 1, ..self@ }),
    {
        Dep { singleton: true, replicas: 1, ..self }
    }

    /// Placed as `p` says.
    pub fn place(self, p: Place) -> (d: Dep)
        ensures
            d@ == (DepModel { place: p@, ..self@ }),
    {
        Dep { place: p, ..self }
    }

    /// Pinned to a node.
    pub fn place_node(self, node_id: &str) -> (d: Dep)
        ensures
            d@ == (DepModel { place: PlaceModel::Node(node_id@), ..self@ }),
    {
        Dep { place: Place::Node(node_id.to_owned()), ..self }
    }

    /// Placed on a node that advertises `tag`.
    pub fn place_tag(self, tag: &str) -> (d: Dep)
        ensures
            d@ == (DepModel { place: PlaceModel::Tag(tag@), ..self@ }),
    {
        Dep { place: Place::Tag(tag.to_owned()), ..self }
    }

    /// Probed for readiness on a TCP port.
    pub fn health_tcp(self, port: u16) -> (d: Dep)
        ensures
            d@ == (DepModel { health_port: Some(port), ..self@ }),
    {
        Dep { health_port: Some(port), ..self }
    }

    /// With leases of `secs` seconds, at least one.
    pub fn lease_ttl(self, secs: u64) -> (d: Dep)
        ensures
            d@ == (DepModel { lease_ttl_secs: at_least_one(secs as nat) as u64, ..self@ }),
    {
        Dep { lease_ttl_secs: if secs == 0 { 1 } else { secs }, ..self }
    }

    /// The mesh service name that this dependency is advertised and located under.
    pub fn service(&self) -> (s: String)
        ensures
            s@ == service_name(self@),
    {
        let mut s: String = "ce-gke/".to_owned();
        s.append(self.namespace.as_str());
        s.append("/");
        s.append(self.name.as_str());
        s
    }

    /// The tag required for placement, if the placement names one.
    pub fn select_tag(&self) -> (t: Option<&str>)
        ensures
            match t {
                Some(t) => self@.place == PlaceModel::Tag(t@),
                None => !(self@.place is Tag),
            },
    {
        match &self.place {
            Place::Tag(t) => Some(t.as_str()),
            _ => None,
        }
    }

    /// The manifest that this dependency is lowered to.
    pub fn to_manifest(&self) -> (y: String)
        ensures
            y@ == manifest(self@),
    {
        let mut y: String = "name: ".to_owned();
        y.append(self.name.as_str());
        y.append("\nnamespace: ");
        y.append(self.namespace.as_str());
        y.append("\nimage: ");
        y.append(self.image.as_str());
        y.append("\n");
        if self.cmd.len() > 0 {
            let words: String = join_quoted(&self.cmd);
            let mut line: String = "command: [".to_owned();
            line.append(words.as_str());
            line.append("]\n");
            y.append(line.as_str());
        } else {
            assert(y@ + command_line(self@.cmd) =~= y@);
        }
        y.append("replicas: ");
        y.append(decimal_text(self.replicas as u64).as_str());
        y.append("\nresources:\n  cpu_cores: ");
        y.append(decimal_text(self.cpu_cores as u64).as_str());
        y.append("\n  mem_mb: ");
        y.append(decimal_text(self.mem_mb as u64).as_str());
        y.append("\nduration_secs: ");
        y.append(decimal_text(self.duration_secs).as_str());
        y.append("\nbid: \"1000000000000000000\"\n");
        if let Some(tag) = self.select_tag() {
            let line: String = crate::text::around("select: [", tag, "]\n");
            y.append(line.as_str());
        } else {
            assert(y@ + select_line(self@.place) =~= y@);
        }
        if let Some(port) = self.health_port {
            let number: String = decimal_text(port as u64);
            let lines: String = crate::text::around(
                "readiness:\n  type: tcp\n  port: ",
                number.as_str(),
                "\n",
            );
            y.append(lines.as_str());
        } else {
            assert(y@ + readiness_lines(self@.health_port) =~= y@);
        }
        y
    }

    /// Lowers the dependency to a deployment: its manifest is handed to `parse`, and what comes
    /// back is validated.
    pub fn to_deployment<P: Fn(&str) -> Result<Deployment, String>>(&self, parse: P) -> (r: Result<
        Deployment,
        SpecError,
    >)
        requires
            forall|y: &str| y@ == manifest(self@) ==> call_requires(parse, (y,)),
        ensures
            exists|y: &str, parsed: Result<Deployment, String>|
                y@ == manifest(self@) && #[trigger] call_ensures(parse, (y,), parsed)
                    && crate::spec::outcome_model(r) == crate::spec::manifest_outcome(
                    crate::spec::parsed_model(parsed),
                ),
    {
        let y: String = self.to_manifest();
        Deployment::from_manifest(y.as_str(), parse)
    }
}

/// The words of a command, each quoted, between commas.
fn join_quoted(words: &Vec<String>) -> (s: String)
    requires
        words@.len() > 0,
    ensures
        s@ == quoted_words(crate::text::texts(words@)),
{
    let ghost all = crate::text::texts(words@);
    let mut s: String = debug_quoted(words[0].as_str());
    assert(all.take(1)[0] == words@[0]@);
    for i in 1..words.len()
        invariant
            words@.len() > 0,
            all == crate::text::texts(words@),
            s@ == quoted_words(all.take(i as int)),
    {
        proof {
            assert(all.take(i + 1).drop_last() =~= all.take(i as int));
            assert(all.take(i + 1).last() == words@[i as int]@);
        }
        s.append(", ");
        s.append(debug_quoted(words[i].as_str()).as_str());
    }
    assert(all.take(words.len() as int) =~= all);
    s
}

} // verus!
