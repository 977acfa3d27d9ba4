//! The mesh driver: which node's API the orchestrator talks to, and what it reports of hosts and
//! services.

use vstd::prelude::*;
use vstd::string::*;

verus! {

/// The API address of the node on this machine.
pub const LOCAL_NODE: &'static str = "http://127.0.0.1:8844";

/// A driver for the mesh behind one node's HTTP API.
#[derive(Debug)]
pub struct CeDriver {
    pub node: String,
}

impl CeDriver {
    /// A driver for the node at `node`.
    pub fn new(node: &str) -> (d: CeDriver)
        ensures
            d.node@ == node@,
    {
        CeDriver { node: node.to_owned() }
    }
}

/// What the mesh says of a dependency's service.
#[derive(Clone, Copy, Debug, PartialEq, Eq, Structural)]
pub enum DepReadiness {
    /// Nobody advertises the service.
    Absent,
    /// The service is advertised and not healthy yet.
    Starting,
    /// The service is advertised and healthy.
    Healthy,
}

/// A host of the atlas: its node id and the tags that it advertises.
#[derive(Debug, PartialEq, Eq)]
pub struct Host {
    pub node_id: String,
    pub tags: Vec<String>,
}

/// What a [`Host`] says.
pub struct HostModel {
    pub node_id: Seq<char>,
    pub tags: Seq<Seq<char>>,
}

impl View for Host {
    type V = HostModel;

    open spec fn view(&self) -> HostModel {
        HostModel { node_id: self.node_id@, tags: crate::text::texts(self.tags@) }
    }
}

/// What a sequence of hosts says.
pub open spec fn host_models(v: Seq<Host>) -> Seq<HostModel> {
    Seq::new(v.len(), |i: int| v[i]@)
}

} // verus!
