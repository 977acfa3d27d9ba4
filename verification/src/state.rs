//! The persisted store: the deployments that the operator applied and the replicas launched for
//! each, by name and in name order.

use vstd::prelude::*;
use vstd::string::*;

use crate::reconcile::{clone_replicas, ReplicaModel, ReplicaState};
use crate::spec::{Deployment, DeploymentModel};
use crate::text::{around, before, clone_opt, same};

verus! {

/// The name of the state file, under the data directory.
pub const STATE_FILE: &'static str = "gke-state.json";

/// One managed deployment: its desired spec and the replicas tracked for it.
#[derive(Debug)]
pub struct ManagedDeployment {
    pub spec: Deployment,
    pub replicas: Vec<ReplicaState>,
    /// Capability grant forwarded to hosts for this deployment's deploys and kills.
    pub grant: Option<String>,
}

/// What a [`ManagedDeployment`] says.
pub struct ManagedModel {
    pub spec: DeploymentModel,
    pub replicas: Seq<ReplicaModel>,
    pub grant: Option<Seq<char>>,
}

impl View for ManagedDeployment {
    type V = ManagedModel;

    open spec fn view(&self) -> ManagedModel {
        ManagedModel {
            spec: self.spec@,
            replicas: crate::reconcile::replica_models(self.replicas@),
            grant: crate::text::opt_text(self.grant),
        }
    }
}

impl Default for ManagedDeployment {
    fn default() -> (m: ManagedDeployment)
        ensures
            m@ == (ManagedModel {
                spec: crate::spec::blank_deployment(),
                replicas: Seq::empty(),
                grant: None,
            }),
    {
        let m: ManagedDeployment = ManagedDeployment {
            spec: Deployment::default(),
            replicas: Vec::new(),
            grant: None,
        };
        assert(m@.replicas =~= Seq::empty());
        m
    }
}

impl Clone for ManagedDeployment {
    fn clone(&self) -> (m: ManagedDeployment)
        ensures
            m@ == self@,
    {
        ManagedDeployment {
            spec: self.spec.clone(),
            replicas: clone_replicas(&self.replicas),
            grant: clone_opt(&self.grant),
        }
    }
}

/// Texts in strictly ascending order.
pub open spec fn ascending(names: Seq<Seq<char>>) -> bool {
    forall|i: int, j: int|
        0 <= i < j < names.len() ==> crate::text::text_before(#[trigger] names[i], #[trigger] names[j])
}

/// What a sequence of managed deployments says.
pub open spec fn managed_models(v: Seq<ManagedDeployment>) -> Seq<ManagedModel> {
    Seq::new(v.len(), |i: int| v[i]@)
}

/// The map from each name to the value at its place.
pub open spec fn pairing(names: Seq<Seq<char>>, values: Seq<ManagedModel>) -> Map<
    Seq<char>,
    ManagedModel,
> {
    Map::new(|k: Seq<char>| names.contains(k), |k: Seq<char>| values[names.index_of(k)])
}

/// The whole persisted store: name to managed deployment. The names are kept in ascending order.
#[derive(Debug)]
pub struct Store {
    names: Vec<String>,
    managed: Vec<ManagedDeployment>,
}

impl View for Store {
    type V = Map<Seq<char>, ManagedModel>;

    closed spec fn view(&self) -> Map<Seq<char>, ManagedModel> {
        pairing(crate::text::texts(self.names@), managed_models(self.managed@))
    }
}

impl Default for Store {
    fn default() -> (s: Store)
        ensures
            s.wf(),
            s@ == Map::<Seq<char>, ManagedModel>::empty(),
    {
        let s: Store = Store { names: Vec::new(), managed: Vec::new() };
        assert(s@ =~= Map::<Seq<char>, ManagedModel>::empty());
        s
    }
}

impl Clone for Store {
    fn clone(&self) -> (s: Store)
        ensures
            s@ == self@,
            self.wf() ==> s.wf(),
    {
        let mut managed: Vec<ManagedDeployment> = Vec::new();
        for i in 0..self.managed.len()
            invariant
                managed.len() == i,
                forall|j: int| 0 <= j < i ==> managed@[j]@ == self.managed@[j]@,
        {
            managed.push(self.managed[i].clone());
        }
        assert(managed_models(managed@) =~= managed_models(self.managed@));
        let names: Vec<String> = crate::text::clone_texts(&self.names);
        assert(names@.len() == crate::text::texts(names@).len());
        assert(self.names@.len() == crate::text::texts(self.names@).len());
        Store { names, managed }
    }
}

/// What `upsert` leaves under the name of `spec`: the new spec, the replicas tracked so far, and
/// the grant given or else the one held so far.
pub open spec fn upserted(
    store: Map<Seq<char>, ManagedModel>,
    spec: DeploymentModel,
    grant: Option<Seq<char>>,
) -> ManagedModel {
    let known = store.contains_key(spec.name);
    ManagedModel {
        spec,
        replicas: if known {
            store[spec.name].replicas
        } else {
            Seq::empty()
        },
        grant: if grant is Some {
            grant
        } else if known {
            store[spec.name].grant
        } else {
            None
        },
    }
}

proof fn lemma_ascending_distinct(names: Seq<Seq<char>>)
    requires
        ascending(names),
    ensures
        names.no_duplicates(),
        forall|i: int| 0 <= i < names.len() ==> names.index_of(#[trigger] names[i]) == i,
{
    assert forall|i: int, j: int| 0 <= i < names.len() && 0 <= j < names.len() && i != j implies names[i]
        != names[j] by {
        crate::text::text_order_is_strict_and_total(names[i], names[j], names[i]);
        if i < j {
            assert(crate::text::text_before(names[i], names[j]));
        } else {
            assert(crate::text::text_before(names[j], names[i]));
        }
    }
    assert forall|i: int| 0 <= i < names.len() implies names.index_of(#[trigger] names[i]) == i by {
        assert(names.contains(names[i]));
    }
}

impl Store {
    /// The names ascend, and each has one managed deployment.
    pub closed spec fn wf(&self) -> bool {
        &&& self.names@.len() == self.managed@.len()
        &&& ascending(crate::text::texts(self.names@))
    }

    /// The place of `name`: how many names come before it, and whether it is there.
    fn place_of(&self, name: &str) -> (r: (usize, bool))
        requires
            self.wf(),
        ensures
            r.0 <= self.names@.len(),
            r.1 ==> r.0 < self.names@.len() && self.names@[r.0 as int]@ == name@,
            r.1 == self@.contains_key(name@),
            forall|j: int|
                0 <= j < r.0 ==> crate::text::text_before(#[trigger] self.names@[j]@, name@),
            !r.1 ==> forall|j: int|
                r.0 <= j < self.names@.len() ==> crate::text::text_before(
                    name@,
                    #[trigger] self.names@[j]@,
                ),
    {
        let ghost names = crate::text::texts(self.names@);
        let mut i: usize = 0;
        while i < self.names.len() && before(self.names[i].as_str(), name)
            invariant
                i <= self.names@.len(),
                forall|j: int|
                    0 <= j < i ==> crate::text::text_before(#[trigger] self.names@[j]@, name@),
            decreases self.names@.len() - i,
        {
            i = i + 1;
        }
        let found: bool = i < self.names.len() && same(self.names[i].as_str(), name);
        proof {
            assert forall|j: int| 0 <= j < i implies #[trigger] names[j] != name@ by {
                assert(crate::text::text_before(self.names@[j]@, name@));
                crate::text::text_order_is_strict_and_total(name@, name@, name@);
            }
            if found {
                assert(names[i as int] == name@);
                assert(names.contains(name@));
            } else {
                assert forall|j: int| i <= j < self.names@.len() implies crate::text::text_before(
                    name@,
                    #[trigger] self.names@[j]@,
                ) by {
                    crate::text::text_order_is_strict_and_total(name@, names[i as int], names[j]);
                    if j > i {
                        assert(crate::text::text_before(names[i as int], names[j]));
                    }
                }
                assert forall|j: int| 0 <= j < names.len() implies #[trigger] names[j] != name@ by {
                    if j >= i {
                        assert(crate::text::text_before(name@, self.names@[j]@));
                        crate::text::text_order_is_strict_and_total(name@, name@, name@);
                    }
                }
                assert(!names.contains(name@));
            }
        }
        (i, found)
    }

    /// Puts `managed` under `name`, replacing what was there.
    pub fn insert(&mut self, name: String, managed: ManagedDeployment)
        requires
            old(self).wf(),
        ensures
            final(self).wf(),
            final(self)@ == old(self)@.insert(name@, managed@),
    {
        let (i, found) = self.place_of(name.as_str());
        let ghost names = crate::text::texts(self.names@);
        let ghost values = managed_models(self.managed@);
        proof {
            lemma_ascending_distinct(names);
        }
        if found {
            self.managed.set(i, managed);
            proof {
                assert(managed_models(self.managed@) =~= values.update(i as int, managed@));
                assert(names[i as int] == name@);
                assert(self@ =~= old(self)@.insert(name@, managed@));
            }
        } else {
            self.names.insert(i, name);
            self.managed.insert(i, managed);
            proof {
                let more = crate::text::texts(self.names@);
                assert(more =~= names.insert(i as int, name@));
                assert(managed_models(self.managed@) =~= values.insert(i as int, managed@));
                assert(ascending(more)) by {
                    assert forall|a: int, b: int| 0 <= a < b < more.len() implies crate::text::text_before(
                        #[trigger] more[a],
                        #[trigger] more[b],
                    ) by {
                        let x = if a < i { a } else { a - 1 };
                        let y = if b < i { b } else { b - 1 };
                        if a == i {
                            assert(crate::text::text_before(name@, old(self).names@[y]@));
                        } else if b == i {
                            assert(crate::text::text_before(old(self).names@[x]@, name@));
                        } else {
                            assert(crate::text::text_before(names[x], names[y]));
                        }
                    }
                }
                lemma_ascending_distinct(more);
                assert forall|k: Seq<char>| more.contains(k) <==> k == name@ || names.contains(k) by {
                    if names.contains(k) {
                        let j = choose|j: int| 0 <= j < names.len() && names[j] == k;
                        assert(more[if j < i { j } else { j + 1 }] == k);
                    }
                    if more.contains(k) {
                        let j = choose|j: int| 0 <= j < more.len() && more[j] == k;
                        if j != i {
                            assert(names[if j < i { j } else { j - 1 }] == k);
                        }
                    }
                    assert(more[i as int] == name@);
                }
                assert forall|k: Seq<char>| #[trigger] self@.contains_key(k) implies self@[k]
                    == old(self)@.insert(name@, managed@)[k] by {
                    let j = choose|j: int| 0 <= j < more.len() && more[j] == k;
                    assert(more.index_of(more[j]) == j);
                    if j != i {
                        let x = if j < i { j } else { j - 1 };
                        assert(names[x] == k);
                        assert(names.index_of(names[x]) == x);
                        assert(k != name@);
                    }
                }
                assert(self@ =~= old(self)@.insert(name@, managed@));
            }
        }
    }

    /// Takes the deployment `name` out of the store, returning it.
    pub fn remove(&mut self, name: &str) -> (r: Option<ManagedDeployment>)
        requires
            old(self).wf(),
        ensures
            final(self).wf(),
            final(self)@ == old(self)@.remove(name@),
            match r {
                Some(m) => old(self)@.contains_key(name@) && m@ == old(self)@[name@],
                None => !old(self)@.contains_key(name@),
            },
    {
        let (i, found) = self.place_of(name);
        let ghost names = crate::text::texts(self.names@);
        let ghost values = managed_models(self.managed@);
        proof {
            lemma_ascending_distinct(names);
        }
        if found {
            let _gone: String = self.names.remove(i);
            let m: ManagedDeployment = self.managed.remove(i);
            proof {
                let less = crate::text::texts(self.names@);
                assert(less =~= names.remove(i as int));
                assert(managed_models(self.managed@) =~= values.remove(i as int));
                assert(names[i as int] == name@);
                assert(ascending(less)) by {
                    assert forall|a: int, b: int| 0 <= a < b < less.len() implies crate::text::text_before(
                        #[trigger] less[a],
                        #[trigger] less[b],
                    ) by {
                        assert(crate::text::text_before(
                            names[if a < i { a } else { a + 1 }],
                            names[if b < i { b } else { b + 1 }],
                        ));
                    }
                }
                lemma_ascending_distinct(less);
                assert forall|k: Seq<char>| less.contains(k) <==> k != name@ && names.contains(k) by {
                    if names.contains(k) && k != name@ {
                        let j = choose|j: int| 0 <= j < names.len() && names[j] == k;
                        assert(less[if j < i { j } else { j - 1 }] == k);
                    }
                    if less.contains(k) {
                        let j = choose|j: int| 0 <= j < less.len() && less[j] == k;
                        let x = if j < i { j } else { j + 1 };
                        assert(names[x] == k);
                        assert(names.index_of(names[x]) == x);
                    }
                }
                assert forall|k: Seq<char>| #[trigger] self@.contains_key(k) implies self@[k]
                    == old(self)@.remove(name@)[k] by {
                    let j = choose|j: int| 0 <= j < less.len() && less[j] == k;
                    assert(less.index_of(less[j]) == j);
                    let x = if j < i { j } else { j + 1 };
                    assert(names[x] == k);
                    assert(names.index_of(names[x]) == x);
                }
                assert(self@ =~= old(self)@.remove(name@));
            }
            Some(m)
        } else {
            assert(self@ =~= old(self)@.remove(name@));
            None
        }
    }

    /// The deployment under `name`.
    pub fn get(&self, name: &str) -> (r: Option<&ManagedDeployment>)
        requires
            self.wf(),
        ensures
            match r {
                Some(m) => self@.contains_key(name@) && m@ == self@[name@],
                None => !self@.contains_key(name@),
            },
    {
        let (i, found) = self.place_of(name);
        if found {
            proof {
                lemma_ascending_distinct(crate::text::texts(self.names@));
                assert(crate::text::texts(self.names@)[i as int] == name@);
            }
            Some(&self.managed[i])
        } else {
            None
        }
    }

    /// The deployment under `name`, to change in place. What is left in it is what the store
    /// then holds under the name; nothing else changes.
    pub fn get_mut(&mut self, name: &str) -> (r: Option<&mut ManagedDeployment>)
        requires
            old(self).wf(),
        ensures
            final(self).wf(),
            match r {
                Some(m) => old(self)@.contains_key(name@) && m@ == old(self)@[name@] && final(self)@
                    == old(self)@.insert(name@, final(m)@),
                None => !old(self)@.contains_key(name@) && final(self)@ == old(self)@,
            },
    {
        let (i, found) = self.place_of(name);
        let ghost names = crate::text::texts(self.names@);
        let ghost values = managed_models(self.managed@);
        proof {
            lemma_ascending_distinct(names);
        }
        if found {
            assert(names[i as int] == name@);
            assert forall|m: ManagedDeployment|
                #![trigger values.update(i as int, m@)]
                pairing(names, values.update(i as int, m@)) == old(self)@.insert(name@, m@) by {
                assert(pairing(names, values.update(i as int, m@)) =~= old(self)@.insert(
                    name@,
                    m@,
                ));
            }
            let ghost all = self.managed@;
            assert forall|m: ManagedDeployment| #[trigger]
                managed_models(all.update(i as int, m)) == values.update(i as int, m@) by {
                assert(managed_models(all.update(i as int, m)) =~= values.update(i as int, m@));
            }
            Some(&mut self.managed[i])
        } else {
            None
        }
    }

    /// Names of all managed deployments: each once, in ascending order.
    pub fn names(&self) -> (r: Vec<String>)
        requires
            self.wf(),
        ensures
            ascending(crate::text::texts(r@)),
            forall|k: Seq<char>| #[trigger]
                crate::text::texts(r@).contains(k) <==> self@.contains_key(k),
    {
        crate::text::clone_texts(&self.names)
    }

    /// Inserts or replaces the spec of a deployment. The replicas tracked for it are kept, and so
    /// is its grant unless a new one is given.
    pub fn upsert(&mut self, spec: Deployment, grant: Option<String>)
        requires
            old(self).wf(),
        ensures
            final(self).wf(),
            final(self)@ == old(self)@.insert(
                spec@.name,
                upserted(old(self)@, spec@, crate::text::opt_text(grant)),
            ),
    {
        let name: String = spec.name.clone();
        let mut entry: ManagedDeployment = match self.get(name.as_str()) {
            Some(m) => m.clone(),
            None => ManagedDeployment::default(),
        };
        entry.spec = spec;
        if grant.is_some() {
            entry.grant = grant;
        }
        self.insert(name, entry);
    }
}

/// What a sequence of names with their managed deployments says.
pub open spec fn entry_models(v: Seq<(String, ManagedDeployment)>) -> Seq<
    (Seq<char>, ManagedModel),
> {
    Seq::new(v.len(), |i: int| (v[i].0@, v[i].1@))
}

/// The store that holds the entries; of two with one name, the later counts.
pub open spec fn entries_map(entries: Seq<(Seq<char>, ManagedModel)>) -> Map<
    Seq<char>,
    ManagedModel,
>
    decreases entries.len(),
{
    if entries.len() == 0 {
        Map::empty()
    } else {
        entries_map(entries.drop_last()).insert(entries.last().0, entries.last().1)
    }
}

proof fn lemma_pairing_push(
    names: Seq<Seq<char>>,
    values: Seq<ManagedModel>,
    name: Seq<char>,
    value: ManagedModel,
)
    requires
        names.len() == values.len(),
        names.push(name).no_duplicates(),
    ensures
        pairing(names.push(name), values.push(value)) == pairing(names, values).insert(name, value),
{
    let more = names.push(name);
    let was = pairing(names, values);
    let now = pairing(more, values.push(value));
    assert(more[names.len() as int] == name);
    assert forall|k: Seq<char>| more.contains(k) <==> k == name || names.contains(k) by {
        if names.contains(k) {
            let j = choose|j: int| 0 <= j < names.len() && names[j] == k;
            assert(more[j] == k);
        }
        if more.contains(k) && k != name {
            let j = choose|j: int| 0 <= j < more.len() && more[j] == k;
            assert(names[j] == k);
        }
    }
    assert forall|k: Seq<char>| #[trigger] now.contains_key(k) implies now[k] == was.insert(
        name,
        value,
    )[k] by {
        let j = choose|j: int| 0 <= j < more.len() && more[j] == k;
        assert(more.index_of(k) == j);
        if j < names.len() {
            assert(names[j] == k);
            assert(names.contains(k));
            let i = names.index_of(k);
            assert(more[i] == k);
            assert(k != name);
        }
    }
    assert(now =~= was.insert(name, value));
}

impl Store {
    /// What is in the store, in name order: what is saved of it.
    pub fn entries(&self) -> (v: Vec<(String, ManagedDeployment)>)
        requires
            self.wf(),
        ensures
            entries_map(entry_models(v@)) == self@,
            ascending(Seq::new(v@.len(), |i: int| v@[i].0@)),
    {
        let ghost names = crate::text::texts(self.names@);
        let ghost values = managed_models(self.managed@);
        let mut v: Vec<(String, ManagedDeployment)> = Vec::new();
        proof {
            lemma_ascending_distinct(names);
            assert(pairing(names.take(0), values.take(0)) =~= entries_map(entry_models(v@)));
        }
        for i in 0..self.names.len()
            invariant
                self.wf(),
                names == crate::text::texts(self.names@),
                values == managed_models(self.managed@),
                names.no_duplicates(),
                v@.len() == i,
                forall|j: int| 0 <= j < i ==> (#[trigger] v@[j]).0@ == names[j],
                entries_map(entry_models(v@)) == pairing(
                    names.take(i as int),
                    values.take(i as int),
                ),
        {
            let ghost so_far = entry_models(v@);
            v.push((self.names[i].clone(), self.managed[i].clone()));
            proof {
                let n = i as int;
                assert(entry_models(v@).drop_last() =~= so_far);
                assert(entry_models(v@).last() == (names[n], values[n]));
                assert(names.take(n + 1) =~= names.take(n).push(names[n]));
                assert(values.take(n + 1) =~= values.take(n).push(values[n]));
                lemma_pairing_push(names.take(n), values.take(n), names[n], values[n]);
            }
        }
        proof {
            assert(names.take(names.len() as int) =~= names);
            assert(values.take(values.len() as int) =~= values);
            assert(Seq::new(v@.len(), |i: int| v@[i].0@) =~= names);
        }
        v
    }

    /// The store that holds the entries; of two with one name, the later counts.
    pub fn from_entries(entries: &Vec<(String, ManagedDeployment)>) -> (s: Store)
        ensures
            s.wf(),
            s@ == entries_map(entry_models(entries@)),
    {
        let ghost all = entry_models(entries@);
        let mut s: Store = Store::default();
        assert(all.take(0) =~= Seq::empty());
        for i in 0..entries.len()
            invariant
                all == entry_models(entries@),
                s.wf(),
                s@ == entries_map(all.take(i as int)),
        {
            proof {
                assert(all.take(i + 1).drop_last() =~= all.take(i as int));
                assert(all.take(i + 1).last() == (entries@[i as int].0@, entries@[i as int].1@));
            }
            s.insert(entries[i].0.clone(), entries[i].1.clone());
        }
        assert(all.take(entries.len() as int) =~= all);
        s
    }
}

/// What reading the state file gave.
pub enum StateRead {
    /// There is no such file.
    Missing,
    /// The file is there and could not be read; carries what the system said.
    Unreadable(String),
    /// The file was read and parsed.
    Parsed(Store),
    /// The file was read and could not be parsed; carries what the parser said.
    Unparsable(String),
}

/// Why the state could not be loaded: the path of the file, and the cause.
#[derive(Debug, PartialEq, Eq)]
pub enum StateError {
    /// The file holds no store.
    Corrupt(String, String),
    /// The file could not be read.
    Reading(String, String),
}

impl StateError {
    /// What is said of the failure, without its cause.
    pub fn message(&self) -> (s: String)
        ensures
            s@ == match self {
                StateError::Corrupt(path, _) => "state file "@ + path@ + " is corrupt"@,
                StateError::Reading(path, _) => "reading state file "@ + path@,
            },
    {
        match self {
            StateError::Corrupt(path, _) => around("state file ", path.as_str(), " is corrupt"),
            StateError::Reading(path, _) => {
                let mut s: String = "reading state file ".to_owned();
                s.append(path.as_str());
                s
            },
        }
    }

    /// The cause.
    pub fn cause(&self) -> (s: &str)
        ensures
            s@ == match self {
                StateError::Corrupt(_, cause) => cause@,
                StateError::Reading(_, cause) => cause@,
            },
    {
        match self {
            StateError::Corrupt(_, cause) => cause.as_str(),
            StateError::Reading(_, cause) => cause.as_str(),
        }
    }
}

impl Store {
    /// The store that a read of the file at `path` gives: what was parsed, or an empty store where
    /// there is no file. A file that is there but cannot be read or parsed is an error: managed
    /// state is never silently discarded.
    pub fn load(path: &str, read: StateRead) -> (r: Result<Store, StateError>)
        requires
            read matches StateRead::Parsed(s) ==> s.wf(),
        ensures
            match read {
                StateRead::Parsed(s) => r == Ok::<Store, StateError>(s),
                StateRead::Missing => r matches Ok(s) && s.wf() && s@ == Map::<
                    Seq<char>,
                    ManagedModel,
                >::empty(),
                StateRead::Unparsable(cause) => r matches Err(StateError::Corrupt(p, c)) && p@
                    == path@ && c == cause,
                StateRead::Unreadable(cause) => r matches Err(StateError::Reading(p, c)) && p@
                    == path@ && c == cause,
            },
    {
        match read {
            StateRead::Parsed(s) => Ok(s),
            StateRead::Missing => Ok(Store::default()),
            StateRead::Unparsable(cause) => Err(StateError::Corrupt(path.to_owned(), cause)),
            StateRead::Unreadable(cause) => Err(StateError::Reading(path.to_owned(), cause)),
        }
    }
}

/// What was saved is what is loaded: where the file gives back the entries that were written, the
/// store loaded has the same names and, for each, the same spec, replica handles and grant.
pub proof fn what_was_saved_is_loaded(
    saved: Store,
    written: Seq<(String, ManagedDeployment)>,
    read: Seq<(String, ManagedDeployment)>,
    parsed: Store,
    loaded: Result<Store, StateError>,
)
    requires
        entries_map(entry_models(written)) == saved@,
        entry_models(read) == entry_models(written),
        parsed@ == entries_map(entry_models(read)),
        loaded == Ok::<Store, StateError>(parsed),
    ensures
        loaded matches Ok(s) && s@ == saved@,
{
}

/// What an `upsert` wrote is what a read gives back: the spec as given, under its own name, and
/// every other deployment as it was.
pub proof fn upsert_is_read_back(
    store: Map<Seq<char>, ManagedModel>,
    spec: DeploymentModel,
    grant: Option<Seq<char>>,
    other: Seq<char>,
)
    ensures
        ({
            let after = store.insert(spec.name, upserted(store, spec, grant));
            &&& after.contains_key(spec.name)
            &&& after[spec.name].spec == spec
            &&& other != spec.name ==> after.contains_key(other) == store.contains_key(other)
            &&& other != spec.name && store.contains_key(other) ==> after[other] == store[other]
        }),
{
}

/// Applying a new spec keeps the replicas tracked for the deployment; it keeps the grant too
/// where none is given, and replaces it where one is.
pub proof fn upsert_keeps_replicas_and_grant(
    store: Map<Seq<char>, ManagedModel>,
    spec: DeploymentModel,
    grant: Option<Seq<char>>,
)
    requires
        store.contains_key(spec.name),
    ensures
        ({
            let after = store.insert(spec.name, upserted(store, spec, grant));
            &&& after[spec.name].replicas == store[spec.name].replicas
            &&& after[spec.name].grant == if grant is Some {
                grant
            } else {
                store[spec.name].grant
            }
        }),
{
}

/// Applying one spec twice, with one grant, is the same as applying it once.
pub proof fn upsert_is_idempotent(
    store: Map<Seq<char>, ManagedModel>,
    spec: DeploymentModel,
    grant: Option<Seq<char>>,
)
    ensures
        ({
            let once = store.insert(spec.name, upserted(store, spec, grant));
            once.insert(spec.name, upserted(once, spec, grant)) == once
        }),
{
    let once = store.insert(spec.name, upserted(store, spec, grant));
    assert(once.insert(spec.name, upserted(once, spec, grant)) =~= once);
}

/// A first `upsert` of a name and a `remove` of it leave the store as it was.
pub proof fn remove_undoes_a_first_upsert(
    store: Map<Seq<char>, ManagedModel>,
    spec: DeploymentModel,
    grant: Option<Seq<char>>,
)
    requires
        !store.contains_key(spec.name),
    ensures
        store.insert(spec.name, upserted(store, spec, grant)).remove(spec.name) == store,
{
    assert(store.insert(spec.name, upserted(store, spec, grant)).remove(spec.name) =~= store);
}

/// The names of a store are listed in one way only: two ascending lists of the same names are one
/// list.
pub proof fn ascending_lists_are_determined(a: Seq<Seq<char>>, b: Seq<Seq<char>>)
    requires
        ascending(a),
        ascending(b),
        forall|k: Seq<char>| #[trigger] a.contains(k) <==> b.contains(k),
    ensures
        a == b,
    decreases a.len(),
{
    if a.len() == 0 {
        if b.len() > 0 {
            assert(b.contains(b[0]));
            assert(a.contains(b[0]));
        }
        assert(a =~= b);
    } else {
        assert(a.contains(a.last()));
        assert(b.contains(a.last()));
        assert(b.contains(b.last()));
        assert(a.contains(b.last()));
        let i = choose|i: int| 0 <= i < b.len() && b[i] == a.last();
        let j = choose|j: int| 0 <= j < a.len() && a[j] == b.last();
        if a.last() != b.last() {
            assert(crate::text::text_before(b[i], b[b.len() - 1]));
            assert(crate::text::text_before(a[j], a[a.len() - 1]));
            crate::text::text_order_is_strict_and_total(a.last(), b.last(), a.last());
        }
        let x = a.drop_last();
        let y = b.drop_last();
        lemma_ascending_distinct(a);
        lemma_ascending_distinct(b);
        assert forall|k: Seq<char>| #[trigger] x.contains(k) <==> y.contains(k) by {
            assert(x.contains(k) <==> a.contains(k) && k != a.last()) by {
                if x.contains(k) {
                    let n = choose|n: int| 0 <= n < x.len() && x[n] == k;
                    assert(a[n] == k);
                }
                if a.contains(k) && k != a.last() {
                    let n = choose|n: int| 0 <= n < a.len() && a[n] == k;
                    assert(x[n] == k);
                }
            }
            assert(y.contains(k) <==> b.contains(k) && k != b.last()) by {
                if y.contains(k) {
                    let n = choose|n: int| 0 <= n < y.len() && y[n] == k;
                    assert(b[n] == k);
                }
                if b.contains(k) && k != b.last() {
                    let n = choose|n: int| 0 <= n < b.len() && b[n] == k;
                    assert(y[n] == k);
                }
            }
        }
        ascending_lists_are_determined(x, y);
        assert(a =~= x.push(a.last()));
        assert(b =~= y.push(b.last()));
    }
}

/// A first `upsert` of a name starts without replicas, and with the grant given, if any.
pub proof fn a_first_upsert_starts_empty(
    store: Map<Seq<char>, ManagedModel>,
    spec: DeploymentModel,
    grant: Option<Seq<char>>,
)
    requires
        !store.contains_key(spec.name),
    ensures
        upserted(store, spec, grant).spec == spec,
        upserted(store, spec, grant).replicas.len() == 0,
        upserted(store, spec, grant).grant == grant,
{
}

/// A grant is never lost by applying without one, and a grant given always replaces it.
pub proof fn a_grant_is_kept_until_replaced(
    store: Map<Seq<char>, ManagedModel>,
    spec: DeploymentModel,
    new_spec: DeploymentModel,
    own: Seq<char>,
    given: Seq<char>,
)
    requires
        new_spec.name == spec.name,
    ensures
        ({
            let after = store.insert(spec.name, upserted(store, spec, Some(own)));
            &&& after[spec.name].grant == Some(own)
            &&& upserted(after, new_spec, None).grant == Some(own)
            &&& upserted(after, new_spec, Some(given)).grant == Some(given)
            &&& upserted(after, new_spec, None).spec == new_spec
            &&& upserted(after, new_spec, None).replicas == after[spec.name].replicas
        }),
{
}

/// Entries make up a store one after the other: the last says what its name holds, whatever came
/// before, and nothing of any other name; no entry makes an empty store.
pub proof fn a_later_entry_counts(
    entries: Seq<(Seq<char>, ManagedModel)>,
    name: Seq<char>,
    value: ManagedModel,
    other: Seq<char>,
)
    ensures
        ({
            let was = entries_map(entries);
            let now = entries_map(entries.push((name, value)));
            &&& now.contains_key(name) && now[name] == value
            &&& other != name ==> now.contains_key(other) == was.contains_key(other)
            &&& other != name && was.contains_key(other) ==> now[other] == was[other]
            &&& !entries_map(Seq::empty()).contains_key(other)
        }),
{
    assert(entries.push((name, value)).drop_last() =~= entries);
}

} // verus!
