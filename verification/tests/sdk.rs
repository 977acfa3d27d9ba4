use ce_gke::amount::Amount;
use ce_gke::driver::{CeDriver, DepReadiness, Host};
use ce_gke::sdk::coord::{now_secs, winner};
use ce_gke::sdk::ensure::{pick_host, Action, Ensure, EnsureError, Event, Stage};
use ce_gke::sdk::{wait_step, Claim, Handle, Lease, MemRegistry, Registry, WaitStep};
use ce_gke::spec::{Deployment, SpecError};
use ce_gke::{Dep, Gke, Place};

/// A mesh that answers every question in one way and remembers what was deployed.
struct MockDriver {
    deploys: Vec<(String, String)>,
    ready: Result<DepReadiness, String>,
    hosts: Vec<(&'static str, Vec<&'static str>)>,
    refuse_after: usize,
    advertised: Vec<String>,
}

impl MockDriver {
    fn with(ready: DepReadiness) -> Self {
        MockDriver { deploys: vec![], ready: Ok(ready), hosts: vec![], refuse_after: 99, advertised: vec![] }
    }
}

fn atlas(hosts: &[(&str, Vec<&str>)]) -> Vec<Host> {
    hosts
        .iter()
        .map(|(id, tags)| Host {
            node_id: id.to_string(),
            tags: tags.iter().map(|t| t.to_string()).collect(),
        })
        .collect()
}

fn parse(y: &str) -> Result<Deployment, String> {
    let field = |key: &str| -> String {
        let v: serde_yaml::Value = serde_yaml::from_str(y).unwrap();
        v.get(key).and_then(|f| f.as_str()).unwrap_or("").to_string()
    };
    Ok(Deployment {
        name: field("name"),
        image: field("image"),
        replicas: 1,
        bid: Amount::from_credits(1),
        duration_secs: 1,
        ..Deployment::default()
    })
}

/// Performs the actions until there is none left.
fn run(mut e: Ensure, driver: &mut MockDriver, registry: &mut MemRegistry) -> Ensure {
    loop {
        let event = match e.action() {
            Action::PutLease(l) => Event::Recorded(registry.put_lease(l)),
            Action::Probe(_) => Event::Readiness(driver.ready.clone()),
            Action::PutClaim(c) => Event::Recorded(registry.put_claim(c)),
            Action::ReadClaims(s) => Event::Claims(registry.claims(&s)),
            Action::Parse(y) => Event::Parsed(parse(&y)),
            Action::ReadAtlas => Event::Atlas(Ok(atlas(&driver.hosts))),
            Action::Deploy(host, d) => {
                if driver.deploys.len() >= driver.refuse_after {
                    Event::Deployed(Err("host full".into()))
                } else {
                    driver.deploys.push((d.name, host));
                    Event::Deployed(Ok(()))
                }
            }
            Action::Advertise(s) => {
                driver.advertised.push(s);
                Event::Advertised(Err("no route".into()))
            }
            Action::Hold | Action::GiveUp => return e,
        };
        e = e.advance(event);
    }
}

fn ensure(me: &str, dep: Dep, driver: &mut MockDriver, registry: &mut MemRegistry) -> Ensure {
    let gke = Gke::new(CeDriver::new("http://node"), (), me);
    run(gke.ensure(dep, now_secs()), driver, registry)
}

#[test]
fn ensure_singleton_spawns_when_absent_and_i_win() {
    let mut driver = MockDriver::with(DepReadiness::Absent);
    let dep = Dep::new("enc").namespace("cast").image("img").place_node("bbbbnode").singleton();
    let e = ensure("aaaa", dep, &mut driver, &mut MemRegistry::new());
    assert!(matches!(e.stage, Stage::Held(_)));
    assert_eq!(driver.deploys.len(), 1, "sole claimant must spawn the singleton");
    assert_eq!(driver.deploys[0].1, "bbbbnode");
}

#[test]
fn ensure_already_running_does_not_spawn() {
    let mut driver = MockDriver::with(DepReadiness::Healthy);
    let dep = Dep::new("enc").image("img").place_node("b");
    ensure("aaaa", dep, &mut driver, &mut MemRegistry::new());
    assert!(driver.deploys.is_empty(), "running dep must not be re-spawned");
}

#[test]
fn ensure_records_a_lease() {
    let mut driver = MockDriver::with(DepReadiness::Healthy);
    let mut reg = MemRegistry::new();
    let dep = Dep::new("enc").namespace("cast").image("img").place_node("b");
    let svc = dep.service();
    ensure("aaaa", dep, &mut driver, &mut reg);
    let leases = reg.leases(&svc).unwrap();
    assert_eq!(leases.len(), 1);
    assert_eq!(leases[0].holder, "aaaa");
}

#[test]
fn mem_registry_lease_upsert_and_drop() {
    let mut r = MemRegistry::new();
    let now = now_secs();
    r.put_lease(Lease::new("svc", "a", 60, now)).unwrap();
    r.put_lease(Lease::new("svc", "b", 60, now)).unwrap();
    r.put_lease(Lease::new("svc", "a", 120, now)).unwrap();
    let ls = r.leases("svc").unwrap();
    assert_eq!(ls.len(), 2);
    r.drop_lease("svc", "a").unwrap();
    let ls = r.leases("svc").unwrap();
    assert_eq!(ls.len(), 1);
    assert_eq!(ls[0].holder, "b");
}

#[test]
fn mem_registry_claims_upsert() {
    let mut r = MemRegistry::new();
    let now = now_secs();
    r.put_claim(Claim::new("svc", "z", 60, now)).unwrap();
    r.put_claim(Claim::new("svc", "a", 60, now)).unwrap();
    r.put_claim(Claim::new("svc", "a", 90, now)).unwrap();
    let cs = r.claims("svc").unwrap();
    assert_eq!(cs.len(), 2);
    assert_eq!(winner(&cs, now).unwrap().owner, "a");
}

#[test]
fn records_of_other_services_stay() {
    let mut r = MemRegistry::default();
    r.put_lease(Lease::new("x", "a", 60, 0)).unwrap();
    r.put_lease(Lease::new("y", "a", 60, 0)).unwrap();
    r.put_claim(Claim::new("x", "a", 60, 0)).unwrap();
    r.drop_lease("x", "a").unwrap();
    r.drop_lease("z", "a").unwrap();
    assert_eq!(r.leases("x").unwrap(), vec![]);
    assert_eq!(r.leases("y").unwrap(), vec![Lease::new("y", "a", 60, 0)]);
    assert_eq!(r.claims("x").unwrap(), vec![Claim::new("x", "a", 60, 0)]);
    assert_eq!(r.claims("y").unwrap(), vec![]);
}

#[test]
fn a_losing_claimant_leases_and_does_not_spawn() {
    let mut reg = MemRegistry::new();
    let dep = || Dep::new("enc").image("img").place_node("n").singleton();
    reg.put_claim(Claim::new(&dep().service(), "aaaa", 60, now_secs())).unwrap();
    let mut driver = MockDriver::with(DepReadiness::Absent);
    let e = ensure("bbbb", dep(), &mut driver, &mut reg);
    assert!(matches!(e.stage, Stage::Held(_)));
    assert!(driver.deploys.is_empty());
    let mut other = MockDriver::with(DepReadiness::Absent);
    ensure("aaaa", dep(), &mut other, &mut reg);
    assert_eq!(other.deploys.len(), 1);
    assert_eq!(reg.leases(&dep().service()).unwrap().len(), 2);
}

#[test]
fn a_failed_probe_counts_as_absent() {
    let mut driver = MockDriver::with(DepReadiness::Healthy);
    driver.ready = Err("unreachable".into());
    ensure("aaaa", Dep::new("enc").image("img").place_node("n"), &mut driver, &mut MemRegistry::new());
    assert_eq!(driver.deploys.len(), 1);
    let mut starting = MockDriver::with(DepReadiness::Starting);
    ensure("aaaa", Dep::new("enc").image("img").place_node("n"), &mut starting, &mut MemRegistry::new());
    assert!(starting.deploys.is_empty());
}

#[test]
fn every_replica_is_deployed_and_the_service_advertised() {
    let mut driver = MockDriver::with(DepReadiness::Absent);
    driver.hosts = vec![("h1", vec![]), ("h2", vec![])];
    let e = ensure("a", Dep::new("enc").image("img").replicas(3), &mut driver, &mut MemRegistry::new());
    assert!(matches!(e.stage, Stage::Held(_)));
    let expected: Vec<(String, String)> = vec![("enc".into(), "h1".into()); 3];
    assert_eq!(driver.deploys, expected);
    assert_eq!(driver.advertised, vec!["ce-gke/default/enc"]);
}

#[test]
fn a_tagged_dependency_goes_where_the_tag_is() {
    let hosts = vec![("h1", vec!["docker"]), ("h2", vec!["docker", "gpu"]), ("h3", vec!["gpu"])];
    let mut driver = MockDriver::with(DepReadiness::Absent);
    driver.hosts = hosts.clone();
    let dep = || Dep::new("enc").image("img").replicas(2).place_tag("gpu");
    let e = ensure("a", dep(), &mut driver, &mut MemRegistry::new());
    assert!(matches!(e.stage, Stage::Held(_)));
    let expected: Vec<(String, String)> = vec![("enc".into(), "h2".into()); 2];
    assert_eq!(driver.deploys, expected);

    let mut none = MockDriver::with(DepReadiness::Absent);
    none.hosts = vec![("h1", vec!["docker"])];
    let e = ensure("a", dep(), &mut none, &mut MemRegistry::new());
    assert!(matches!(e.stage, Stage::Failed(EnsureError::NoHost(_))));
    assert!(none.deploys.is_empty());

    let all = atlas(&hosts);
    assert_eq!(pick_host(&Place::Auto, &all).as_deref(), Some("h1"));
    assert_eq!(pick_host(&Place::Tag("gpu".into()), &all).as_deref(), Some("h2"));
    assert_eq!(pick_host(&Place::Tag("gp".into()), &all), None);
    assert_eq!(pick_host(&Place::Node("x".into()), &all).as_deref(), Some("x"));
    assert_eq!(pick_host(&Place::Auto, &vec![]), None);
}

#[test]
fn each_failure_ends_the_run() {
    let dep = || Dep::new("enc").image("img").singleton();
    let failed = |e: Ensure| match e.stage {
        Stage::Failed(x) => x,
        other => panic!("{other:?}"),
    };
    let start = |stage: Stage| Ensure { dep: dep(), me: "a".into(), now: 0, stage };

    let e = failed(start(Stage::Leasing).advance(Event::Recorded(Err("r1".into()))));
    assert!(matches!(&e, EnsureError::Registry(m) if m == "r1"));
    assert_eq!(e.message(), "r1");
    let e = failed(start(Stage::Claiming).advance(Event::Recorded(Err("r2".into()))));
    assert!(matches!(&e, EnsureError::Registry(m) if m == "r2"));
    let e = failed(start(Stage::Electing).advance(Event::Claims(Err("r3".into()))));
    assert!(matches!(&e, EnsureError::Registry(m) if m == "r3"));
    let e = failed(start(Stage::Lowering).advance(Event::Parsed(Err("y".into()))));
    assert!(matches!(&e, EnsureError::Spec(SpecError::Manifest(m)) if m == "y"));
    assert_eq!(e.message(), "manifest is not valid YAML/JSON: y");
    let e = failed(start(Stage::Placing(Deployment::default())).advance(Event::Atlas(Err("down".into()))));
    assert!(matches!(&e, EnsureError::Atlas(m) if m == "down"));
    assert_eq!(e.message(), "down");
    let e = failed(start(Stage::Placing(Deployment::default())).advance(Event::Atlas(Ok(vec![]))));
    assert!(matches!(&e, EnsureError::NoHost(n) if n == "enc"));
    assert_eq!(e.message(), "no atlas host available to place 'enc'");
    let mut full = MockDriver::with(DepReadiness::Absent);
    full.refuse_after = 1;
    let dep = Dep::new("enc").image("img").replicas(3).place_node("n");
    let e = failed(ensure("a", dep, &mut full, &mut MemRegistry::new()));
    assert_eq!(full.deploys.len(), 1);
    assert!(full.advertised.is_empty());
    assert!(matches!(&e, EnsureError::Deploy(m) if m == "host full"));
    assert_eq!(e.message(), "host full");
}

#[test]
fn an_answer_to_another_question_changes_nothing() {
    let e = Ensure::start(Dep::new("enc"), "a", 5);
    let e = e.advance(Event::Deployed(Ok(())));
    assert!(matches!(e.stage, Stage::Leasing));
    match e.action() {
        Action::PutLease(l) => assert_eq!(l, Lease::new("ce-gke/default/enc", "a", 60, 5)),
        other => panic!("{other:?}"),
    }
}

#[test]
fn a_handle_renews_in_time() {
    let mut driver = MockDriver::with(DepReadiness::Healthy);
    let dep = Dep::new("enc").image("img").lease_ttl(61);
    let held = ensure("a", dep, &mut driver, &mut MemRegistry::new());
    let h = held.into_handle(MemRegistry::new()).unwrap();
    assert_eq!(h.service(), "ce-gke/default/enc");
    assert_eq!(h.holder, "a");
    assert_eq!(h.renew_secs(), 30);
    assert_eq!(h.renewal(100), Lease::new("ce-gke/default/enc", "a", 61, 100));
    assert!(!h.renewal(100).expired(100 + h.renew_secs()));
    assert_eq!(Handle::start((), "s".into(), "h".into(), 1, false).renew_secs(), 1);
    assert!(Ensure::start(Dep::new("enc"), "a", 5).into_handle(()).is_none());
}

#[test]
fn the_owner_renews_its_claim_and_a_loser_does_not() {
    let mut reg = MemRegistry::new();
    let dep = || Dep::new("enc").image("img").place_node("n").singleton();
    let won = ensure("aaaa", dep(), &mut MockDriver::with(DepReadiness::Absent), &mut reg);
    let lost = ensure("bbbb", dep(), &mut MockDriver::with(DepReadiness::Absent), &mut reg);
    let found = ensure("cccc", dep(), &mut MockDriver::with(DepReadiness::Healthy), &mut reg);
    let owner = won.into_handle(()).unwrap();
    assert_eq!(owner.claim_renewal(100), Some(Claim::new(&dep().service(), "aaaa", 60, 100)));
    assert!(!owner.claim_renewal(100).unwrap().expired(100 + owner.renew_secs()));
    assert_eq!(lost.into_handle(()).unwrap().claim_renewal(100), None);
    assert_eq!(found.into_handle(()).unwrap().claim_renewal(100), None);
    let plain = Dep::new("enc").image("img").place_node("n");
    let many = ensure("a", plain, &mut MockDriver::with(DepReadiness::Absent), &mut reg);
    assert_eq!(many.into_handle(()).unwrap().claim_renewal(100), None);

    let service = dep().service();
    let now = now_secs() + 59;
    reg.put_claim(owner.claim_renewal(now).unwrap()).unwrap();
    assert_eq!(winner(&reg.claims(&service).unwrap(), now + 30).unwrap().owner, "aaaa");
    assert!(winner(&reg.claims(&service).unwrap(), now + 60).is_none());
}

#[test]
fn waiting_ends_on_health_failure_or_time() {
    assert_eq!(wait_step(Ok(DepReadiness::Healthy), false), WaitStep::Ready);
    assert_eq!(wait_step(Ok(DepReadiness::Healthy), true), WaitStep::Ready);
    assert_eq!(wait_step(Ok(DepReadiness::Starting), true), WaitStep::TimedOut);
    assert_eq!(wait_step(Ok(DepReadiness::Absent), false), WaitStep::Sleep(500));
    assert_eq!(wait_step(Err("x".into()), false), WaitStep::Failed("x".into()));
}

#[test]
fn the_local_sdk_drives_this_machines_node() {
    let g = Gke::local("me");
    assert_eq!(g.driver.node, "http://127.0.0.1:8844");
    assert_eq!(g.me, "me");
    assert!(g.registry.leases("x").unwrap().is_empty());
}
