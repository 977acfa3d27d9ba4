use ce_gke::amount::Amount;
use ce_gke::spec::{Deployment, Resources, SpecError, Strategy};
use ce_gke::{Dep, Place};
use serde_yaml::Value;

/// Reads the manifests that dependencies are lowered to.
fn parse(s: &str) -> Result<Deployment, String> {
    let v: Value = serde_yaml::from_str(s).map_err(|e| e.to_string())?;
    let text = |key: &str| -> Result<String, String> {
        v.get(key).and_then(Value::as_str).map(str::to_string).ok_or_else(|| format!("missing field `{key}`"))
    };
    let list = |key: &str| -> Vec<String> {
        match v.get(key).and_then(Value::as_sequence) {
            Some(items) => items.iter().filter_map(|i| i.as_str().map(str::to_string)).collect(),
            None => vec![],
        }
    };
    let number = |at: &Value, key: &str| -> Result<u64, String> {
        at.get(key).and_then(Value::as_u64).ok_or_else(|| format!("missing field `{key}`"))
    };
    let resources = v.get("resources").ok_or_else(|| "missing field `resources`".to_string())?;
    Ok(Deployment {
        name: text("name")?,
        image: text("image")?,
        command: list("command"),
        replicas: number(&v, "replicas")? as u32,
        resources: Resources {
            cpu_cores: number(resources, "cpu_cores")? as u32,
            mem_mb: number(resources, "mem_mb")?,
        },
        select: list("select"),
        bid: Amount::from_base(text("bid")?.parse::<i128>().map_err(|e| e.to_string())?),
        duration_secs: number(&v, "duration_secs")?,
        strategy: Strategy::default(),
    })
}

#[test]
fn service_name_is_namespaced() {
    let d = Dep::new("cast-encoder").namespace("cast");
    assert_eq!(d.service(), "ce-gke/cast/cast-encoder");
}

#[test]
fn singleton_forces_one_replica() {
    let d = Dep::new("enc").replicas(5).singleton();
    assert_eq!(d.replicas, 1);
    assert!(d.singleton);
}

#[test]
fn lowers_to_a_valid_deployment() {
    let d = Dep::new("enc")
        .namespace("cast")
        .image("ce-net/cast-encoder:latest")
        .resources(2, 1024)
        .place_tag("gpu")
        .health_tcp(8080)
        .singleton();
    let dep = d.to_deployment(|y: &str| parse(y)).expect("manifest should parse");
    assert_eq!(dep.name, "enc");
    assert_eq!(dep.image, "ce-net/cast-encoder:latest");
    assert_eq!(dep.replicas, 1);
    assert_eq!(dep.resources, Resources { cpu_cores: 2, mem_mb: 1024 });
    assert_eq!(dep.select, vec!["gpu"]);
    assert_eq!(dep.bid, Amount::from_credits(1));
    assert_eq!(dep.duration_secs, 86400);
}

#[test]
fn the_manifest_is_spelled_out() {
    let plain = Dep::new("enc").image("img");
    assert_eq!(
        plain.to_manifest(),
        "name: enc\nnamespace: default\nimage: img\nreplicas: 1\nresources:\n  cpu_cores: 1\n  mem_mb: 256\nduration_secs: 86400\nbid: \"1000000000000000000\"\n"
    );
    let full = Dep::new("enc")
        .namespace("cast")
        .image("img:2")
        .cmd(vec!["run".to_string(), "a \"b\"\n".to_string()])
        .replicas(3)
        .resources(2, 1024)
        .duration(90)
        .place(Place::Tag("gpu".into()))
        .health_tcp(8080);
    assert_eq!(
        full.to_manifest(),
        "name: enc\nnamespace: cast\nimage: img:2\ncommand: [\"run\", \"a \\\"b\\\"\\n\"]\nreplicas: 3\nresources:\n  cpu_cores: 2\n  mem_mb: 1024\nduration_secs: 90\nbid: \"1000000000000000000\"\nselect: [gpu]\nreadiness:\n  type: tcp\n  port: 8080\n"
    );
    let lowered = full.to_deployment(|y: &str| parse(y)).unwrap();
    assert_eq!(lowered.command, vec!["run", "a \"b\"\n"]);
}

#[test]
fn an_invalid_dependency_is_not_lowered() {
    let bad = Dep::new("BAD").image("img");
    assert_eq!(
        bad.to_deployment(|y: &str| parse(y)),
        Err(SpecError::NameCharacter("BAD".into()))
    );
    let said = Dep::new("x").to_deployment(|_: &str| Err("no".into()));
    assert_eq!(said, Err(SpecError::Manifest("no".into())));
}

#[test]
fn builders_raise_zero_to_one() {
    let d = Dep::new("x").replicas(0).resources(0, 0).duration(0).lease_ttl(0);
    assert_eq!((d.replicas, d.cpu_cores, d.mem_mb, d.duration_secs, d.lease_ttl_secs), (1, 1, 1, 1, 1));
    let d = Dep::new("x").replicas(4).lease_ttl(9);
    assert_eq!((d.replicas, d.lease_ttl_secs), (4, 9));
}

#[test]
fn a_new_dependency_has_the_documented_defaults() {
    let d = Dep::new("x");
    assert_eq!(d.name, "x");
    assert_eq!(d.namespace, "default");
    assert_eq!(d.image, "");
    assert!(d.cmd.is_empty());
    assert_eq!((d.replicas, d.cpu_cores, d.mem_mb), (1, 1, 256));
    assert_eq!((d.duration_secs, d.lease_ttl_secs), (86400, 60));
    assert_eq!(d.place, Place::default());
    assert!(!d.singleton);
    assert_eq!(d.health_port, None);
}

#[test]
fn only_a_tag_selects() {
    assert_eq!(Dep::new("x").select_tag(), None);
    assert_eq!(Dep::new("x").place_node("n").select_tag(), None);
    assert_eq!(Dep::new("x").place_tag("gpu").select_tag(), Some("gpu"));
    assert_eq!(Dep::new("x").place_node("n").clone().place, Place::Node("n".into()));
}

#[test]
fn slashes_can_hide_where_a_namespace_ends() {
    let a = Dep::new("c").namespace("a/b");
    let b = Dep::new("b/c").namespace("a");
    assert_eq!(a.service(), b.service());
    assert_ne!(Dep::new("c").namespace("a").service(), Dep::new("c").namespace("b").service());
}
