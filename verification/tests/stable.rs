use ce_gke::stable::{
    check_root, encode_attestation, first_issuer, is_stable, mint_stable_attestation, stable_query, stable_terms,
    verify_stable, NodeId, Query, Revocations, StableError, Terms, ABILITY_STABLE,
};

/// A capability as the authority of these tests signs it: the terms and who issued them.
#[derive(Clone, Debug, PartialEq)]
struct Link {
    issuer: NodeId,
    audience: NodeId,
    ability: String,
    resource: NodeId,
    /// The last second at which it holds; none where this is zero.
    not_after: u64,
    nonce: u64,
}

fn key(n: u8) -> NodeId {
    [n; 32]
}

fn mint(root: NodeId, host: NodeId, not_after: u64, nonce: u64) -> Link {
    mint_stable_attestation(host, not_after, nonce, |t: Terms<u64>| {
        assert_eq!(t.abilities, vec!["stable"]);
        assert!(t.root_delegation);
        Link {
            issuer: root,
            audience: t.audience,
            ability: t.abilities[0].clone(),
            resource: t.resource,
            not_after: t.caveats,
            nonce: t.nonce,
        }
    })
}

fn encode_chain(chain: &[Link]) -> String {
    let links: Vec<String> = chain
        .iter()
        .map(|l| {
            format!(
                "{},{},{},{},{},{}",
                hex::encode(l.issuer),
                hex::encode(l.audience),
                l.ability,
                hex::encode(l.resource),
                l.not_after,
                l.nonce
            )
        })
        .collect();
    format!("chain:{}", links.join(";"))
}

fn decode_key(s: &str) -> Result<NodeId, String> {
    let bytes = hex::decode(s).map_err(|e| e.to_string())?;
    bytes.try_into().map_err(|_| "bad key".to_string())
}

fn decode_link(s: &str) -> Result<Link, String> {
    let f: Vec<&str> = s.split(',').collect();
    if f.len() != 6 {
        return Err("bad link".into());
    }
    Ok(Link {
        issuer: decode_key(f[0])?,
        audience: decode_key(f[1])?,
        ability: f[2].into(),
        resource: decode_key(f[3])?,
        not_after: f[4].parse::<u64>().map_err(|e| e.to_string())?,
        nonce: f[5].parse::<u64>().map_err(|e| e.to_string())?,
    })
}

fn decode_chain(token: &str) -> Result<Vec<Link>, String> {
    let body = token.strip_prefix("chain:").ok_or_else(|| "not a chain".to_string())?;
    if body.is_empty() {
        return Ok(vec![]);
    }
    body.split(';').map(decode_link).collect()
}

/// The rules of the capability library, for one link: an accepted root (the node itself among
/// them), the requester, the resource, the ability, the expiry and the revocations.
fn authorize(q: &Query, chain: &Vec<Link>, is_revoked: &dyn Fn(&NodeId, u64) -> bool) -> Result<(), String> {
    let l = &chain[0];
    if l.issuer != q.self_id && !q.accepted_roots.contains(&l.issuer) {
        return Err("untrusted root".into());
    }
    if l.audience != q.requester {
        return Err("wrong audience".into());
    }
    if l.resource != q.self_id {
        return Err("wrong resource".into());
    }
    if l.ability != q.action {
        return Err("ability not granted".into());
    }
    if l.not_after != 0 && q.now > l.not_after {
        return Err("expired".into());
    }
    if matches!(q.revocations, Revocations::OnChain) && is_revoked(&l.issuer, l.nonce) {
        return Err("revoked".into());
    }
    Ok(())
}

fn encode(l: &Link) -> String {
    encode_attestation(l, |c: &[Link]| encode_chain(c))
}

fn issuer_of(link: &Link) -> NodeId {
    link.issuer
}

fn verify(
    token: &str,
    host: &NodeId,
    root: &NodeId,
    now: u64,
    is_revoked: &dyn Fn(&NodeId, u64) -> bool,
) -> Result<(), StableError> {
    verify_stable(
        token,
        host,
        root,
        now,
        Revocations::OnChain,
        |t: &str| decode_chain(t),
        |l: &Link| issuer_of(l),
        |q: &Query, c: &Vec<Link>| authorize(q, c, is_revoked),
    )
}

fn stable(token: &str, host: &NodeId, root: &NodeId, now: u64) -> bool {
    is_stable(
        token,
        host,
        root,
        now,
        |t: &str| decode_chain(t),
        |l: &Link| issuer_of(l),
        |q: &Query, c: &Vec<Link>| authorize(q, c, &|_, _| true),
    )
}

#[test]
fn valid_org_root_attestation_verifies() {
    let (root, host) = (key(1), key(2));
    let tok = encode(&mint(root, host, 0, 1));
    assert!(verify(&tok, &host, &root, 1000, &|_, _| false).is_ok());
    assert!(stable(&tok, &host, &root, 1000));
}

#[test]
fn attestation_signed_by_non_root_is_rejected() {
    let (real_root, impostor, host) = (key(1), key(3), key(2));
    let tok = encode(&mint(impostor, host, 0, 1));
    let err = verify(&tok, &host, &real_root, 1000, &|_, _| false).unwrap_err().message();
    assert!(err.contains("root at the pinned org root"), "got: {err}");
    assert!(!stable(&tok, &host, &real_root, 1000));
}

#[test]
fn attestation_for_a_different_node_does_not_vet_this_host() {
    let (root, other, host) = (key(1), key(4), key(2));
    let tok = encode(&mint(root, other, 0, 1));
    assert!(verify(&tok, &host, &root, 1000, &|_, _| false).is_err());
    assert!(!stable(&tok, &host, &root, 1000));
}

#[test]
fn self_minted_attestation_is_not_root_signed() {
    let (root, host) = (key(1), key(2));
    let tok = encode(&mint(host, host, 0, 1));
    assert!(!stable(&tok, &host, &root, 1000));
    assert_eq!(verify(&tok, &host, &root, 1000, &|_, _| false), Err(StableError::ForeignRoot));
}

#[test]
fn expired_attestation_is_rejected() {
    let (root, host) = (key(1), key(2));
    let tok = encode(&mint(root, host, 500, 1));
    assert!(!stable(&tok, &host, &root, 1000));
    assert!(stable(&tok, &host, &root, 400));
}

#[test]
fn revoked_attestation_is_rejected() {
    let (root, host) = (key(1), key(2));
    let tok = encode(&mint(root, host, 0, 42));
    let revoke_42 = |_: &NodeId, nonce: u64| nonce == 42;
    assert!(verify(&tok, &host, &root, 1000, &revoke_42).is_err());
    assert_eq!(
        verify(&tok, &host, &root, 1000, &revoke_42).unwrap_err().message(),
        "not a valid org-root stable attestation: revoked"
    );
}

#[test]
fn malformed_token_does_not_panic() {
    let (root, host) = (key(1), key(2));
    assert!(!stable("not-hex-!!!", &host, &root, 0));
    assert!(!stable("", &host, &root, 0));
    assert!(!stable("deadbeef", &host, &root, 0));
}

#[test]
fn each_refusal_has_its_error() {
    let (root, host) = (key(1), key(2));
    let never = |_: &NodeId, _: u64| false;
    assert_eq!(verify("junk", &host, &root, 0, &never), Err(StableError::Malformed("not a chain".into())));
    assert_eq!(StableError::Malformed("not a chain".into()).message(), "not a chain");
    assert_eq!(verify("chain:", &host, &root, 0, &never), Err(StableError::EmptyChain));
    assert_eq!(StableError::EmptyChain.message(), "empty attestation chain");
    let tok = encode(&mint(root, key(9), 0, 1));
    assert_eq!(verify(&tok, &host, &root, 0, &never), Err(StableError::Unauthorized("wrong audience".into())));
}

#[test]
fn the_encoded_chain_has_one_link() {
    let link = mint(key(1), key(2), 0, 7);
    assert_eq!(decode_chain(&encode(&link)).unwrap(), vec![link]);
}

#[test]
fn terms_and_query_name_the_host() {
    let t = stable_terms(key(2), 500u64, 42);
    assert_eq!((t.audience, t.resource, t.caveats, t.nonce), (key(2), key(2), 500, 42));
    assert_eq!(t.abilities, vec![ABILITY_STABLE]);
    let q = stable_query(&key(2), &key(1), 1000, Revocations::OnChain);
    assert_eq!((q.self_id, q.requester, q.now), (key(2), key(2), 1000));
    assert_eq!(q.accepted_roots, vec![key(1)]);
    assert!(q.self_tags.is_empty());
    assert_eq!(q.action, "stable");
    assert_eq!(q.revocations, Revocations::OnChain);
}

#[test]
fn a_minted_attestation_counts_for_its_host_and_root_alone() {
    let keys = [key(1), key(2), key(3)];
    for signer in keys {
        for attested in keys {
            let tok = encode(&mint(signer, attested, 0, 7));
            for host in keys {
                for root in keys {
                    for now in [0, 1000, u64::MAX] {
                        assert_eq!(stable(&tok, &host, &root, now), host == attested && root == signer);
                    }
                }
            }
        }
    }
}

#[test]
fn the_first_link_decides_the_root() {
    let (root, host) = (key(1), key(2));
    let by_root = mint(root, host, 0, 1);
    let by_host = mint(host, host, 0, 1);
    let chain = vec![by_root.clone(), by_host.clone()];
    assert_eq!(first_issuer(&chain, |l: &Link| issuer_of(l)), Some(root));
    assert_eq!(first_issuer(&vec![], |l: &Link| issuer_of(l)), None);
    let never = |_: &NodeId, _: u64| false;
    assert_eq!(verify(&encode_chain(&chain), &host, &root, 0, &never), Ok(()));
    let swapped = encode_chain(&[by_host, by_root]);
    assert_eq!(verify(&swapped, &host, &root, 0, &never), Err(StableError::ForeignRoot));
}

#[test]
fn the_root_must_match_in_every_byte() {
    let root = key(1);
    assert_eq!(check_root(Some(root), &root), Ok(()));
    for i in 0..32 {
        let mut off = root;
        off[i] = 2;
        assert_eq!(check_root(Some(off), &root), Err(StableError::ForeignRoot));
    }
    assert_eq!(check_root(None, &root), Err(StableError::EmptyChain));
}
