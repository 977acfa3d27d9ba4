use ce_gke::amount::Amount;
use ce_gke::commands::{
    apply, fail_note, first_line, names_to_show, ready_count, rollout, scale, short, status_line, table_head,
    table_line, table_row, truncate, CommandError, Convergence, Deletion, Line, TickReport,
    NO_DEPLOYMENTS,
};
use ce_gke::reconcile::{Phase, ReplicaState};
use ce_gke::spec::{Deployment, SpecError};
use ce_gke::state::Store;

fn deploy(name: &str, replicas: u32) -> Deployment {
    Deployment {
        name: name.into(),
        image: "nginx:1.25".into(),
        command: vec![],
        replicas,
        resources: Default::default(),
        select: vec![],
        bid: Amount::from_credits(5),
        duration_secs: 3600,
        strategy: Default::default(),
    }
}

fn replica(job: &str, node: &str, phase: Phase) -> ReplicaState {
    ReplicaState { job_id: job.into(), node_id: node.into(), revision: "r".into(), phase }
}

fn quiet(done: bool) -> TickReport {
    TickReport { placed: 0, killed: 0, place_failures: 0, kill_failures: 0, done }
}

#[test]
fn short_truncates() {
    assert_eq!(short("0123456789abcdef"), "0123456789ab");
    assert_eq!(short("abc"), "abc");
}

#[test]
fn truncate_adds_ellipsis() {
    assert_eq!(truncate("short", 20), "short");
    assert_eq!(truncate("a-very-long-image-name:latest", 10), "a-very-...");
    assert_eq!(truncate("exactly-ten", 11), "exactly-ten");
}

#[test]
fn fail_note_formats() {
    assert_eq!(fail_note("place", 0), "");
    assert_eq!(fail_note("place", 2), ", 2 place failure(s)");
}

#[test]
fn short_counts_characters() {
    assert_eq!(short("ééééééééééééé"), "éééééééééééé");
    assert_eq!(short("0123456789ab"), "0123456789ab");
    assert_eq!(short(""), "");
}

#[test]
fn truncate_counts_bytes() {
    assert_eq!(truncate("éé", 4), "éé");
    assert_eq!(truncate("ééé", 5), "é...");
    assert_eq!(truncate("abcd", 2), "...");
    assert_eq!(truncate("abcd", 3), "...");
}

#[test]
fn a_cut_text_fits_and_starts_like_the_whole() {
    let name = "a-name-of-thirty-characters-xx";
    for n in 0..40 {
        let t = truncate(name, n);
        assert!(t.len() <= n.max(3));
        if name.len() > n {
            assert_eq!(t, format!("{}...", &name[..n.saturating_sub(3)]));
        } else {
            assert_eq!(t, name);
        }
    }
}

#[test]
fn apply_upserts_a_valid_spec() {
    let mut s = Store::default();
    let said = apply(&mut s, Ok(deploy("web", 3)), Some("tok".into())).unwrap();
    assert_eq!(said.0, "web");
    assert_eq!(said.1, "Applying deployment 'web' (image nginx:1.25, 3 replica(s))");
    assert_eq!(s.get("web").unwrap().spec, deploy("web", 3));
    assert_eq!(s.get("web").unwrap().grant.as_deref(), Some("tok"));
}

#[test]
fn apply_of_a_bad_manifest_changes_nothing() {
    let mut s = Store::default();
    s.upsert(deploy("web", 3), None);
    assert_eq!(apply(&mut s, Err("bad".into()), None), Err(SpecError::Manifest("bad".into())));
    assert_eq!(apply(&mut s, Ok(deploy("WEB", 1)), None), Err(SpecError::NameCharacter("WEB".into())));
    assert_eq!(s.names(), vec!["web"]);
    assert_eq!(s.get("web").unwrap().spec.replicas, 3);
}

#[test]
fn scale_changes_the_count_alone() {
    let mut s = Store::default();
    s.upsert(deploy("web", 3), Some("g".into()));
    s.get_mut("web").unwrap().replicas.push(replica("j", "n", Phase::Running));
    let revision = s.get("web").unwrap().spec.revision();
    assert_eq!(scale(&mut s, "web", 5).unwrap(), "Scaling 'web': 3 -> 5 replica(s)");
    let m = s.get("web").unwrap();
    assert_eq!(m.spec, deploy("web", 5));
    assert_eq!(m.spec.revision(), revision);
    assert_eq!(m.replicas.len(), 1);
    assert_eq!(m.grant.as_deref(), Some("g"));
    scale(&mut s, "web", 3).unwrap();
    assert_eq!(s.get("web").unwrap().spec, deploy("web", 3));
    let e = scale(&mut s, "api", 1).unwrap_err();
    assert_eq!(e, CommandError::NothingToScale("api".into()));
    assert_eq!(e.message(), "no deployment named 'api' (apply one first)");
}

#[test]
fn rollout_needs_a_deployment() {
    let mut s = Store::default();
    let e = rollout(&s, "web").unwrap_err();
    assert_eq!(e, CommandError::NoDeployment("web".into()));
    assert_eq!(e.message(), "no deployment named 'web'");
    s.upsert(deploy("web", 1), None);
    assert_eq!(rollout(&s, "web").unwrap(), "Reconciling 'web'...");
}

#[test]
fn delete_tries_each_replica_once() {
    let mut s = Store::default();
    s.upsert(deploy("web", 2), None);
    let live = &mut s.get_mut("web").unwrap().replicas;
    live.push(replica("job-0123456789", "node-0123456789", Phase::Running));
    live.push(replica("job-b", "node-b", Phase::Running));
    let (mut d, said) = Deletion::begin(&mut s, "web", &Some("cli".to_string())).unwrap();
    assert_eq!(said, "Deleting 'web': killing 2 replica(s)");
    assert_eq!(d.grant.as_deref(), Some("cli"));
    assert!(s.get("web").is_none());
    assert_eq!(d.next().unwrap().job_id, "job-0123456789");
    assert_eq!(d.record(Ok(())), Line::Out("  killed job-01234567 on node-0123456".into()));
    assert_eq!(d.warning(), None);
    assert_eq!(d.next().unwrap().job_id, "job-b");
    assert_eq!(
        d.record(Err("host down".into())),
        Line::Warn("  warning: kill of job-b failed: host down".into())
    );
    assert!(d.next().is_none());
    assert_eq!(
        d.warning(),
        Some(Line::Warn("1 replica(s) could not be killed (host may already have reaped them).".into()))
    );
    assert_eq!(d.farewell(), Line::Out("Deleted 'web'.".into()));
}

#[test]
fn delete_prefers_the_deployments_own_grant() {
    let mut s = Store::default();
    s.upsert(deploy("web", 0), Some("own".into()));
    let (d, _) = Deletion::begin(&mut s, "web", &Some("cli".to_string())).unwrap();
    assert_eq!(d.grant.as_deref(), Some("own"));
    assert!(d.next().is_none());
    let e = Deletion::begin(&mut s, "web", &None).unwrap_err();
    assert_eq!(e, CommandError::NoDeployment("web".into()));
}

#[test]
fn convergence_writes_handles_back_every_tick() {
    let mut s = Store::default();
    s.upsert(deploy("web", 2), None);
    let mut c = Convergence::start(&s, "web", &Some("cli".to_string()), 5, 2).unwrap();
    assert_eq!(c.grant.as_deref(), Some("cli"));
    assert_eq!(c.spec, deploy("web", 2));
    assert!(c.ticks_on());
    let report = TickReport { placed: 2, killed: 1, place_failures: 1, kill_failures: 3, done: false };
    let a = c.after_tick(&mut s, vec![replica("a", "n", Phase::Pending)], report);
    assert_eq!(
        a.line.as_deref(),
        Some("  tick 0: +2 placed, -1 killed, 1 place failure(s), 3 kill failure(s)")
    );
    assert_eq!(a.wait, Some(2));
    assert_eq!(s.get("web").unwrap().replicas, vec![replica("a", "n", Phase::Pending)]);
    let b = c.after_tick(&mut s, vec![replica("a", "n", Phase::Running)], quiet(true));
    assert_eq!(b.line, None);
    assert_eq!(b.wait, None);
    assert!(!c.ticks_on());
    assert_eq!(s.get("web").unwrap().replicas, vec![replica("a", "n", Phase::Running)]);
    assert_eq!(s.get("web").unwrap().spec, deploy("web", 2));
    assert_eq!(c.summary(), vec!["'web' converged: 1 running."]);
}

#[test]
fn convergence_stops_at_the_budget() {
    let mut s = Store::default();
    s.upsert(deploy("web", 2), None);
    let mut c = Convergence::start(&s, "web", &None, 2, 0).unwrap();
    let mut ticks = 0;
    while c.ticks_on() {
        let left = vec![
            replica("a", "n", Phase::Running),
            replica("b", "n", Phase::Pending),
            replica("c", "n", Phase::Failed),
        ];
        assert_eq!(c.after_tick(&mut s, left, quiet(false)).wait, Some(1));
        ticks += 1;
    }
    assert_eq!(ticks, 2);
    assert_eq!(
        c.summary(),
        vec![
            "'web' not fully converged within 2 ticks: 1 running, 1 pending, 1 terminal.",
            "Re-run `ce-gke rollout web` to continue."
        ]
    );
}

#[test]
fn convergence_needs_the_deployment_and_survives_its_loss() {
    let mut s = Store::default();
    let e = Convergence::start(&s, "web", &None, 2, 1).unwrap_err();
    assert_eq!(e, CommandError::Vanished);
    assert_eq!(e.message(), "deployment vanished");
    s.upsert(deploy("web", 1), None);
    let mut c = Convergence::start(&s, "web", &None, 2, 1).unwrap();
    s.remove("web");
    c.after_tick(&mut s, vec![replica("a", "n", Phase::Running)], quiet(true));
    assert!(s.names().is_empty());
    let none = Convergence::start(&s, "web", &None, 0, 1);
    assert!(none.is_err());
}

#[test]
fn get_selects_one_or_all() {
    let mut s = Store::default();
    assert_eq!(names_to_show(&s, None).unwrap(), Vec::<String>::new());
    s.upsert(deploy("b", 1), None);
    s.upsert(deploy("a", 1), None);
    assert_eq!(names_to_show(&s, None).unwrap(), vec!["a", "b"]);
    assert_eq!(names_to_show(&s, Some("b")).unwrap(), vec!["b"]);
    assert_eq!(names_to_show(&s, Some("c")), Err(CommandError::NoDeployment("c".into())));
    assert_eq!(NO_DEPLOYMENTS, "No deployments. Apply one with `ce-gke apply -f deploy.yaml`.");
    assert_eq!(first_line(&vec![]), NO_DEPLOYMENTS);
    assert_eq!(first_line(&vec!["a".to_string()]), table_head());
}

#[test]
fn a_silent_node_shows_the_cached_phase() {
    let v = vec![
        replica("a", "n", Phase::Running),
        replica("b", "n", Phase::Running),
        replica("c", "n", Phase::Pending),
        replica("d", "n", Phase::Pending),
    ];
    assert_eq!(ready_count(&v, &vec![None, Some(Phase::Failed), None, Some(Phase::Running)]), 2);
    assert_eq!(ready_count(&vec![], &vec![]), 0);
}

#[test]
fn the_table_is_aligned() {
    assert_eq!(
        table_head(),
        format!("{:<20}  {:<24}  {:>8}  {:>9}  {:<16}", "NAME", "IMAGE", "DESIRED", "READY", "REVISION")
    );
    assert_eq!(
        table_row("web", &deploy("web", 3), 2, "0123456789abcdef"),
        format!("{:<20}  {:<24}  {:>8}  {:>9}  {:<16}", "web", "nginx:1.25", 3, "2/3", "0123456789abcdef")
    );
    let mut long = deploy("web", 3);
    long.image = "registry.example.org/team/image:latest".into();
    assert_eq!(
        table_row("a-name-of-more-than-twenty-bytes", &long, 0, "r"),
        format!(
            "{:<20}  {:<24}  {:>8}  {:>9}  {:<16}",
            "a-name-of-more-th...", "registry.example.org/...", 3, "0/3", "r"
        )
    );
    assert_eq!(
        table_line("é", "b", "123456789", "d", "e"),
        format!("{:<20}  {:<24}  {:>8}  {:>9}  {:<16}", "é", "b", "123456789", "d", "e")
    );
}

#[test]
fn a_status_line_counts_and_addresses() {
    let mut s = Store::default();
    s.upsert(deploy("web", 3), None);
    s.get_mut("web").unwrap().replicas.push(replica("a", "n", Phase::Running));
    let line = status_line("web", s.get("web").unwrap(), &vec![None]);
    assert_eq!(
        line,
        format!("{:<20}  {:<24}  {:>8}  {:>9}  {:<16}", "web", "nginx:1.25", 3, "1/3", "3960e2881f9458dd")
    );
}
