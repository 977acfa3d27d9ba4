use ce_gke::amount::Amount;
use ce_gke::spec::{
    default_duration, is_blank, is_white_space, one, revision_label, validate_name, Deployment,
    Resources, SpecError, Strategy,
};
use serde_yaml::Value;

fn base() -> Deployment {
    Deployment {
        name: "web".into(),
        image: "nginx:1.25".into(),
        command: vec![],
        replicas: 3,
        resources: Resources { cpu_cores: 1, mem_mb: 256 },
        select: vec![],
        bid: Amount::from_credits(5),
        duration_secs: 3600,
        strategy: Strategy::default(),
    }
}

fn text(v: &Value, key: &str) -> Result<String, String> {
    match v.get(key).and_then(Value::as_str) {
        Some(s) => Ok(s.to_string()),
        None => Err(format!("missing field `{key}`")),
    }
}

fn list(v: &Value, key: &str) -> Result<Vec<String>, String> {
    match v.get(key) {
        None => Ok(vec![]),
        Some(l) => match l.as_sequence() {
            None => Err(format!("`{key}` is not a list")),
            Some(items) => items
                .iter()
                .map(|i| i.as_str().map(str::to_string).ok_or_else(|| format!("`{key}`: not a text")))
                .collect(),
        },
    }
}

fn count(v: &Value, key: &str, unsaid: Option<u64>) -> Result<u64, String> {
    match v.get(key) {
        None => unsaid.ok_or_else(|| format!("missing field `{key}`")),
        Some(n) => n.as_u64().ok_or_else(|| format!("`{key}` is not a count")),
    }
}

/// Reads a manifest the way the command line does: defaults where a field is unsaid.
fn parse(s: &str) -> Result<Deployment, String> {
    let v: Value = serde_yaml::from_str(s).map_err(|e| e.to_string())?;
    let unsaid = Resources::default();
    let resources = match v.get("resources") {
        None => unsaid,
        Some(r) => Resources {
            cpu_cores: count(r, "cpu_cores", None)? as u32,
            mem_mb: count(r, "mem_mb", None)?,
        },
    };
    let bid = match v.get("bid") {
        None => Amount::default(),
        Some(b) => {
            let digits = b.as_str().ok_or_else(|| "`bid` is not a text".to_string())?;
            Amount::from_base(digits.parse::<i128>().map_err(|e| e.to_string())?)
        }
    };
    let strategy = match v.get("strategy") {
        None => Strategy::default(),
        Some(s) => match text(s, "type")?.as_str() {
            "rolling_update" => Strategy::RollingUpdate {
                max_unavailable: count(s, "max_unavailable", Some(one() as u64))? as u32,
                max_surge: count(s, "max_surge", Some(one() as u64))? as u32,
            },
            "recreate" => Strategy::Recreate,
            other => return Err(format!("unknown variant `{other}`")),
        },
    };
    Ok(Deployment {
        name: text(&v, "name")?,
        image: text(&v, "image")?,
        command: list(&v, "command")?,
        replicas: count(&v, "replicas", None)? as u32,
        resources,
        select: list(&v, "select")?,
        bid,
        duration_secs: count(&v, "duration_secs", Some(default_duration()))?,
        strategy,
    })
}

fn from_manifest(s: &str) -> Result<Deployment, SpecError> {
    Deployment::from_manifest(s, |y: &str| parse(y))
}

#[test]
fn revision_is_stable_for_same_template() {
    let a = base();
    let mut b = base();
    b.replicas = 99;
    b.select = vec!["gpu".into()];
    assert_eq!(a.revision(), b.revision());
}

#[test]
fn revision_changes_with_image() {
    let a = base();
    let mut b = base();
    b.image = "nginx:1.26".into();
    assert_ne!(a.revision(), b.revision());
}

#[test]
fn revision_changes_with_command_and_resources() {
    let a = base();
    let mut img = base();
    img.command = vec!["sleep".into(), "1".into()];
    assert_ne!(a.revision(), img.revision());
    let mut res = base();
    res.resources.cpu_cores = 4;
    assert_ne!(a.revision(), res.revision());
    let mut mem = base();
    mem.resources.mem_mb = 1024;
    assert_ne!(a.revision(), mem.revision());
}

#[test]
fn revision_is_short_hex() {
    let r = base().revision();
    assert_eq!(r.len(), 16);
    assert!(r.chars().all(|c| c.is_ascii_hexdigit()));
}

#[test]
fn validate_accepts_good_spec() {
    assert!(base().validate().is_ok());
}

#[test]
fn validate_rejects_empty_image() {
    let mut d = base();
    d.image = "  ".into();
    assert!(d.validate().is_err());
}

#[test]
fn validate_rejects_zero_resources() {
    let mut d = base();
    d.resources.cpu_cores = 0;
    assert!(d.validate().is_err());
    let mut d = base();
    d.resources.mem_mb = 0;
    assert!(d.validate().is_err());
}

#[test]
fn validate_rejects_negative_bid() {
    let mut d = base();
    d.bid = Amount::from_base(-1);
    assert!(d.validate().is_err());
}

#[test]
fn validate_rejects_stuck_rolling_update() {
    let mut d = base();
    d.strategy = Strategy::RollingUpdate { max_unavailable: 0, max_surge: 0 };
    assert!(d.validate().is_err());
}

#[test]
fn validate_allows_zero_replicas() {
    let mut d = base();
    d.replicas = 0;
    assert!(d.validate().is_ok());
}

#[test]
fn name_validation_rules() {
    assert!(validate_name("web").is_ok());
    assert!(validate_name("web-1").is_ok());
    assert!(validate_name("a").is_ok());
    assert!(validate_name("").is_err());
    assert!(validate_name("-web").is_err());
    assert!(validate_name("web-").is_err());
    assert!(validate_name("Web").is_err());
    assert!(validate_name("web_1").is_err());
    assert!(validate_name(&"a".repeat(64)).is_err());
    assert!(validate_name(&"a".repeat(63)).is_ok());
}

#[test]
fn required_tags_always_include_docker() {
    let mut d = base();
    d.select = vec!["gpu".into(), "linux".into()];
    assert_eq!(d.required_tags(), vec!["docker", "gpu", "linux"]);
    d.select = vec!["docker".into(), "gpu".into()];
    assert_eq!(d.required_tags(), vec!["docker", "gpu"]);
    d.select = vec![];
    assert_eq!(d.required_tags(), vec!["docker"]);
}

#[test]
fn parses_yaml_manifest() {
    let yaml = r#"
name: web
image: nginx:1.25
replicas: 4
resources:
  cpu_cores: 2
  mem_mb: 512
select:
  - gpu
bid: "5000000000000000000"
strategy:
  type: rolling_update
  max_unavailable: 1
  max_surge: 2
"#;
    let d = from_manifest(yaml).unwrap();
    assert_eq!(d.name, "web");
    assert_eq!(d.replicas, 4);
    assert_eq!(d.resources.cpu_cores, 2);
    assert_eq!(d.select, vec!["gpu"]);
    assert_eq!(d.bid, Amount::from_credits(5));
    assert_eq!(d.strategy, Strategy::RollingUpdate { max_unavailable: 1, max_surge: 2 });
}

#[test]
fn parses_json_manifest() {
    let json = r#"{"name":"api","image":"redis","replicas":2,"bid":"0"}"#;
    let d = from_manifest(json).unwrap();
    assert_eq!(d.name, "api");
    assert_eq!(d.replicas, 2);
    assert_eq!(d.resources, Resources::default());
    assert_eq!(d.duration_secs, 3600);
    assert_eq!(d.strategy, Strategy::default());
}

#[test]
fn manifest_with_bad_spec_is_rejected() {
    let yaml = "name: BAD\nimage: x\nreplicas: 1\n";
    assert!(from_manifest(yaml).is_err());
}

#[test]
fn malformed_manifest_does_not_panic() {
    assert!(from_manifest("::: not yaml :::").is_err());
    assert!(from_manifest("").is_err());
    assert!(from_manifest("name: web").is_err());
}

#[test]
fn template_is_written_out_field_by_field() {
    let mut d = base();
    d.image = "img".into();
    d.command = vec!["sleep".into(), "1".into()];
    d.resources = Resources { cpu_cores: 4, mem_mb: 1024 };
    d.bid = Amount::from_base(-1);
    d.duration_secs = 0;
    let mut expected: Vec<u8> = b"img\0sleep\x001\0".to_vec();
    expected.extend_from_slice(&4u32.to_le_bytes());
    expected.extend_from_slice(&1024u64.to_le_bytes());
    expected.extend_from_slice(&(-1i128).to_le_bytes());
    expected.extend_from_slice(&0u64.to_le_bytes());
    assert_eq!(d.template_bytes(), expected);
    assert_eq!(d.revision(), "db9dc8ae620fa45b");
}

#[test]
fn revision_is_the_head_of_the_digest() {
    assert_eq!(base().revision(), "3960e2881f9458dd");
    let mut b = base();
    b.image = "nginx:1.26".into();
    assert_eq!(b.revision(), "ad9ac03423277fa5");
    assert_eq!(revision_label(&[0x00, 0x0f, 0xf0, 0xff, 0x12, 0x34, 0xab, 0xcd, 0xee]), "000ff0ff1234abcd");
}

#[test]
fn revision_tells_funding_and_duration_apart() {
    let mut bid = base();
    bid.bid = Amount::from_credits(6);
    assert_ne!(base().revision(), bid.revision());
    let mut secs = base();
    secs.duration_secs = 60;
    assert_ne!(base().revision(), secs.revision());
}

#[test]
fn nul_bytes_can_hide_where_the_image_ends() {
    let mut a = base();
    a.image = "a\0b".into();
    let mut b = base();
    b.image = "a".into();
    b.command = vec!["b".into()];
    assert_eq!(a.template_bytes(), b.template_bytes());
}

#[test]
fn each_spec_problem_has_its_error_and_message() {
    let w = || "web".to_string();
    let mut d = base();
    d.name = "".into();
    assert_eq!(d.validate(), Err(SpecError::NameLength("".into())));
    assert_eq!(d.validate().unwrap_err().message(), "name '' must be 1-63 characters");
    d.name = "-a".into();
    assert_eq!(d.validate(), Err(SpecError::NameHyphen("-a".into())));
    assert_eq!(d.validate().unwrap_err().message(), "name '-a' must not start or end with a hyphen");
    d.name = "A".into();
    assert_eq!(d.validate(), Err(SpecError::NameCharacter("A".into())));
    assert_eq!(
        d.validate().unwrap_err().message(),
        "name 'A' may only contain lowercase letters, digits, and hyphens"
    );
    d = base();
    d.image = "\u{3000}\t".into();
    assert_eq!(d.validate(), Err(SpecError::EmptyImage(w())));
    assert_eq!(d.validate().unwrap_err().message(), "deployment 'web': image must not be empty");
    d = base();
    d.resources.cpu_cores = 0;
    assert_eq!(d.validate(), Err(SpecError::ZeroCpu(w())));
    assert_eq!(d.validate().unwrap_err().message(), "deployment 'web': cpu_cores must be >= 1");
    d = base();
    d.resources.mem_mb = 0;
    assert_eq!(d.validate(), Err(SpecError::ZeroMemory(w())));
    assert_eq!(d.validate().unwrap_err().message(), "deployment 'web': mem_mb must be >= 1");
    d = base();
    d.bid = Amount::from_base(-1);
    assert_eq!(d.validate(), Err(SpecError::NegativeBid(w())));
    assert_eq!(d.validate().unwrap_err().message(), "deployment 'web': bid must not be negative");
    d = base();
    d.strategy = Strategy::RollingUpdate { max_unavailable: 0, max_surge: 0 };
    assert_eq!(d.validate(), Err(SpecError::StuckRollingUpdate(w())));
    assert_eq!(
        d.validate().unwrap_err().message(),
        "deployment 'web': rolling update needs max_unavailable>0 or max_surge>0 (else it can never progress)"
    );
    d.strategy = Strategy::RollingUpdate { max_unavailable: 0, max_surge: 1 };
    assert!(d.validate().is_ok());
    d.strategy = Strategy::Recreate;
    assert!(d.validate().is_ok());
    let refused = Deployment::from_parsed(Err("missing field `name`".into()));
    assert_eq!(refused, Err(SpecError::Manifest("missing field `name`".into())));
    assert_eq!(refused.unwrap_err().message(), "manifest is not valid YAML/JSON: missing field `name`");
}

#[test]
fn name_length_is_in_bytes_and_comes_first() {
    assert_eq!(validate_name(&"é".repeat(32)), Err(SpecError::NameLength("é".repeat(32))));
    assert_eq!(validate_name("é"), Err(SpecError::NameCharacter("é".into())));
    assert_eq!(validate_name("-A"), Err(SpecError::NameHyphen("-A".into())));
    assert_eq!(validate_name("-"), Err(SpecError::NameHyphen("-".into())));
}

#[test]
fn an_accepted_manifest_comes_back_unchanged() {
    assert_eq!(Deployment::from_parsed(Ok(base())), Ok(base()));
}

#[test]
fn white_space_is_that_of_the_character_type() {
    for u in 0..=0x10ffffu32 {
        if let Some(c) = char::from_u32(u) {
            assert_eq!(is_white_space(c), c.is_whitespace(), "{u:#x}");
        }
    }
    for s in ["", " ", "\u{a0}\n", " x ", "x", "\u{200b}"] {
        assert_eq!(is_blank(s), s.trim().is_empty());
    }
}

#[test]
fn tags_keep_the_order_of_first_mention() {
    let mut d = base();
    d.select = vec!["b".into(), "a".into(), "b".into(), "docker".into(), "a".into()];
    assert_eq!(d.required_tags(), vec!["docker", "b", "a"]);
}

#[test]
fn defaults_are_the_documented_ones() {
    assert_eq!(Resources::default(), Resources { cpu_cores: 1, mem_mb: 256 });
    assert_eq!(Strategy::default(), Strategy::RollingUpdate { max_unavailable: 1, max_surge: 1 });
    let d = Deployment::default();
    assert_eq!((d.name.as_str(), d.image.as_str(), d.replicas, d.duration_secs), ("", "", 0, 0));
    assert_eq!(d.bid.base(), 0);
    assert_eq!(base().clone(), base());
    assert_eq!(Amount::from_credits(-3).base(), -3_000_000_000_000_000_000);
    assert_eq!(Amount::from_credits(i64::MAX).base(), i64::MAX as i128 * 1_000_000_000_000_000_000);
}
