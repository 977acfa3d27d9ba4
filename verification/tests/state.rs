use ce_gke::amount::Amount;
use ce_gke::reconcile::{tally_phases, Phase, ReplicaState};
use ce_gke::spec::Deployment;
use ce_gke::state::{ManagedDeployment, StateError, StateRead, Store, STATE_FILE};

fn deploy(name: &str, replicas: u32) -> Deployment {
    Deployment {
        name: name.into(),
        image: "nginx".into(),
        command: vec![],
        replicas,
        resources: Default::default(),
        select: vec![],
        bid: Amount::from_credits(1),
        duration_secs: 60,
        strategy: Default::default(),
    }
}

fn replica(job: &str, phase: Phase) -> ReplicaState {
    ReplicaState { job_id: job.into(), node_id: "a".into(), revision: "r".into(), phase }
}

#[test]
fn upsert_and_get() {
    let mut s = Store::default();
    s.upsert(deploy("web", 3), Some("tok".into()));
    assert_eq!(s.get("web").unwrap().spec.replicas, 3);
    assert_eq!(s.get("web").unwrap().grant.as_deref(), Some("tok"));
}

#[test]
fn upsert_preserves_replicas_and_grant() {
    let mut s = Store::default();
    s.upsert(deploy("web", 3), Some("tok".into()));
    s.get_mut("web").unwrap().replicas.push(ReplicaState {
        job_id: "j1".into(),
        node_id: "a".into(),
        revision: "r".into(),
        phase: Phase::Running,
    });
    s.upsert(deploy("web", 5), None);
    assert_eq!(s.get("web").unwrap().spec.replicas, 5);
    assert_eq!(s.get("web").unwrap().replicas.len(), 1);
    assert_eq!(s.get("web").unwrap().grant.as_deref(), Some("tok"));
}

#[test]
fn remove_returns_managed() {
    let mut s = Store::default();
    s.upsert(deploy("web", 1), None);
    let removed = s.remove("web").unwrap();
    assert_eq!(removed.spec.name, "web");
    assert!(s.get("web").is_none());
}

#[test]
fn names_are_sorted() {
    let mut s = Store::default();
    s.upsert(deploy("zebra", 1), None);
    s.upsert(deploy("apple", 1), None);
    assert_eq!(s.names(), vec!["apple", "zebra"]);
}

#[test]
fn load_missing_is_empty() {
    let s = Store::load("ce-gke-definitely-missing-xyz.json", StateRead::Missing).unwrap();
    assert!(s.names().is_empty());
}

#[test]
fn load_corrupt_is_error() {
    let said = match serde_json::from_str::<serde_json::Value>("{ not json") {
        Ok(_) => panic!("parsed"),
        Err(e) => e.to_string(),
    };
    let r = Store::load("bad.json", StateRead::Unparsable(said.clone()));
    assert!(r.is_err());
    let e = r.unwrap_err();
    assert_eq!(e.message(), "state file bad.json is corrupt");
    assert_eq!(e.cause(), said);
    assert_eq!(e, StateError::Corrupt("bad.json".into(), said));
}

#[test]
fn load_unreadable_is_error() {
    let e = Store::load("s.json", StateRead::Unreadable("permission denied".into())).unwrap_err();
    assert_eq!(e, StateError::Reading("s.json".into(), "permission denied".into()));
    assert_eq!(e.message(), "reading state file s.json");
    assert_eq!(e.cause(), "permission denied");
}

#[test]
fn load_gives_what_was_parsed() {
    let mut s = Store::default();
    s.upsert(deploy("web", 2), Some("g".into()));
    let back = Store::load("s.json", StateRead::Parsed(s.clone())).unwrap();
    assert_eq!(back.get("web").unwrap().spec.replicas, 2);
    assert_eq!(back.get("web").unwrap().grant.as_deref(), Some("g"));
    assert_eq!(STATE_FILE, "gke-state.json");
}

#[test]
fn what_was_saved_is_loaded() {
    let mut s = Store::default();
    s.upsert(deploy("web", 2), Some("g".into()));
    s.upsert(deploy("api", 1), None);
    s.get_mut("web").unwrap().replicas.push(replica("j", Phase::Running));
    let saved = s.entries();
    assert_eq!(saved.iter().map(|e| e.0.as_str()).collect::<Vec<&str>>(), vec!["api", "web"]);
    let back = Store::load("s.json", StateRead::Parsed(Store::from_entries(&saved))).unwrap();
    assert_eq!(back.names(), s.names());
    for n in s.names() {
        let (a, b) = (s.get(&n).unwrap(), back.get(&n).unwrap());
        assert_eq!((&a.spec, &a.replicas, &a.grant), (&b.spec, &b.replicas, &b.grant));
    }
    let twice = vec![
        ("x".to_string(), ManagedDeployment { spec: deploy("x", 1), replicas: vec![], grant: None }),
        ("x".to_string(), ManagedDeployment { spec: deploy("x", 2), replicas: vec![], grant: None }),
    ];
    assert_eq!(Store::from_entries(&twice).get("x").unwrap().spec.replicas, 2);
    assert!(Store::from_entries(&vec![]).names().is_empty());
}

#[test]
fn a_new_grant_replaces_the_old_one() {
    let mut s = Store::default();
    s.upsert(deploy("web", 3), Some("old".into()));
    s.upsert(deploy("web", 3), Some("new".into()));
    assert_eq!(s.get("web").unwrap().grant.as_deref(), Some("new"));
}

#[test]
fn upserting_twice_is_upserting_once() {
    let mut s = Store::default();
    s.upsert(deploy("web", 3), Some("g".into()));
    s.get_mut("web").unwrap().replicas.push(replica("j", Phase::Pending));
    let mut t = s.clone();
    t.upsert(deploy("web", 3), Some("g".into()));
    assert_eq!(t.names(), s.names());
    let (a, b) = (s.get("web").unwrap(), t.get("web").unwrap());
    assert_eq!((&a.spec, &a.replicas, &a.grant), (&b.spec, &b.replicas, &b.grant));
}

#[test]
fn remove_undoes_a_first_upsert() {
    let mut s = Store::default();
    s.upsert(deploy("b", 1), None);
    s.upsert(deploy("a", 1), None);
    assert!(s.remove("a").is_some());
    assert!(s.remove("a").is_none());
    assert_eq!(s.names(), vec!["b"]);
}

#[test]
fn the_store_behaves_like_an_ordered_map() {
    let mut s = Store::default();
    let mut m: std::collections::BTreeMap<String, u32> = std::collections::BTreeMap::new();
    let keys = ["m", "a", "é", "z", "aa", "", "m-1", "Z", "\u{10000}", "\u{ffff}"];
    for round in 0..3u32 {
        for (i, k) in keys.iter().enumerate() {
            let n = round * 100 + i as u32;
            if (i as u32 + round) % 3 == 0 {
                assert_eq!(s.remove(k).map(|x| x.spec.replicas), m.remove(*k));
            } else {
                s.upsert(deploy(k, n), None);
                m.insert(k.to_string(), n);
            }
            assert_eq!(s.names(), m.keys().cloned().collect::<Vec<String>>());
            for q in keys {
                assert_eq!(s.get(q).map(|x| x.spec.replicas), m.get(q).copied());
            }
        }
    }
}

#[test]
fn insert_replaces_the_whole_entry() {
    let mut s = Store::default();
    s.upsert(deploy("web", 3), Some("g".into()));
    s.insert("web".into(), ManagedDeployment { spec: deploy("web", 1), replicas: vec![], grant: None });
    assert_eq!(s.get("web").unwrap().grant, None);
    assert!(s.get_mut("api").is_none());
    assert_eq!(ManagedDeployment::default().replicas.len(), 0);
}

#[test]
fn phases_are_tallied_in_three_groups() {
    let v = vec![
        replica("1", Phase::Pending),
        replica("2", Phase::Running),
        replica("3", Phase::Failed),
        replica("4", Phase::Settled),
        replica("5", Phase::Running),
        replica("6", Phase::Running),
    ];
    assert_eq!(tally_phases(&v), (1, 3, 2));
    assert_eq!(tally_phases(&vec![]), (0, 0, 0));
}
