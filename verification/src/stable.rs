//! Stable hosts: the designation of a host as vetted and long-lived by the organization's root key.
//!
//! A tag that a host claims for itself proves nothing. A stable attestation is a capability that
//! the offline organization root issued to one host, for that host, with the single ability
//! `stable`; it is verified offline against the pinned root. Signing, the token encoding and the
//! check of a capability chain belong to the capability library, which the functions here are
//! handed; what is asked of it, and what is made of its answers, is decided here.

use vstd::prelude::*;
use vstd::string::*;

verus! {

/// The public key of a node.
pub type NodeId = [u8; 32];

/// The ability that an organization root grants to designate a host as stable.
pub const ABILITY_STABLE: &'static str = "stable";

/// Calls `std::slice::from_ref`: the slice that holds the referenced value and nothing else.
pub assume_specification<T>[ std::slice::from_ref::<T> ](s: &T) -> (r: &[T])
    ensures
        r@ == seq![*s],
;

/// The terms of a root delegation, as handed to the signer.
pub struct Terms<C> {
    /// Who may present the capability.
    pub audience: NodeId,
    /// What it allows.
    pub abilities: Vec<String>,
    /// The one node that it applies to.
    pub resource: NodeId,
    /// What bounds it, such as an expiry.
    pub caveats: C,
    /// What names it for revocation.
    pub nonce: u64,
    /// Whether it is a root delegation: no capability stands above it.
    pub root_delegation: bool,
}

/// What [`Terms`] say.
pub struct TermsModel<C> {
    pub audience: NodeId,
    pub abilities: Seq<Seq<char>>,
    pub resource: NodeId,
    pub caveats: C,
    pub nonce: u64,
    pub root_delegation: bool,
}

impl<C> View for Terms<C> {
    type V = TermsModel<C>;

    open spec fn view(&self) -> TermsModel<C> {
        TermsModel {
            audience: self.audience,
            abilities: crate::text::texts(self.abilities@),
            resource: self.resource,
            caveats: self.caveats,
            nonce: self.nonce,
            root_delegation: self.root_delegation,
        }
    }
}

/// The terms of a stable attestation: to the host, for the host, with the one ability, as a root
/// delegation.
pub open spec fn attestation_terms<C>(host_id: NodeId, caveats: C, nonce: u64) -> TermsModel<C> {
    TermsModel {
        audience: host_id,
        abilities: seq![ABILITY_STABLE@],
        resource: host_id,
        caveats,
        nonce,
        root_delegation: true,
    }
}

/// The terms of a stable attestation of `host_id`.
pub fn stable_terms<C>(host_id: NodeId, caveats: C, nonce: u64) -> (t: Terms<C>)
    ensures
        t@ == attestation_terms(host_id, caveats, nonce),
{
    let mut abilities: Vec<String> = Vec::new();
    abilities.push(ABILITY_STABLE.to_owned());
    assert(crate::text::texts(abilities@) =~= seq![ABILITY_STABLE@]);
    Terms {
        audience: host_id,
        abilities,
        resource: host_id,
        caveats,
        nonce,
        root_delegation: true,
    }
}

/// Mints a stable attestation of `host_id`: `issue` signs the terms with the root key.
pub fn mint_stable_attestation<C, L, I: FnOnce(Terms<C>) -> L>(
    host_id: NodeId,
    caveats: C,
    nonce: u64,
    issue: I,
) -> (attestation: L)
    requires
        forall|t: Terms<C>|
            t@ == attestation_terms(host_id, caveats, nonce) ==> call_requires(issue, (t,)),
    ensures
        exists|t: Terms<C>|
            t@ == attestation_terms(host_id, caveats, nonce) && #[trigger] call_ensures(
                issue,
                (t,),
                attestation,
            ),
{
    issue(stable_terms(host_id, caveats, nonce))
}

/// Encodes an attestation to the token that the host serves: `encode` is handed the chain whose
/// single link is the attestation.
pub fn encode_attestation<L, E: Fn(&[L]) -> String>(attestation: &L, encode: E) -> (token: String)
    requires
        forall|chain: &[L]| chain@ == seq![*attestation] ==> call_requires(encode, (chain,)),
    ensures
        exists|chain: &[L]|
            chain@ == seq![*attestation] && #[trigger] call_ensures(encode, (chain,), token),
{
    encode(std::slice::from_ref(attestation))
}

/// Which revocations count.
#[derive(Clone, Copy, Debug, PartialEq, Eq, Structural)]
pub enum Revocations {
    /// Those recorded on chain.
    OnChain,
    /// None: an offline check.
    Offline,
}

/// What the capability library is asked of a chain.
pub struct Query {
    /// The node whose resource is at stake.
    pub self_id: NodeId,
    /// The roots accepted besides that node.
    pub accepted_roots: Vec<NodeId>,
    /// The tags that the node goes by.
    pub self_tags: Vec<String>,
    /// Unix seconds at which the chain must hold.
    pub now: u64,
    /// Who presents the chain.
    pub requester: NodeId,
    /// The ability asked for.
    pub action: String,
    /// Which revocations count.
    pub revocations: Revocations,
}

/// What a [`Query`] says.
pub struct QueryModel {
    pub self_id: NodeId,
    pub accepted_roots: Seq<NodeId>,
    pub self_tags: Seq<Seq<char>>,
    pub now: u64,
    pub requester: NodeId,
    pub action: Seq<char>,
    pub revocations: Revocations,
}

impl View for Query {
    type V = QueryModel;

    open spec fn view(&self) -> QueryModel {
        QueryModel {
            self_id: self.self_id,
            accepted_roots: self.accepted_roots@,
            self_tags: crate::text::texts(self.self_tags@),
            now: self.now,
            requester: self.requester,
            action: self.action@,
            revocations: self.revocations,
        }
    }
}

/// What is asked of a host's attestation: the chain must allow the host the ability `stable` on
/// itself, with the organization root as the one accepted root and no tags at all.
pub open spec fn query_for(
    host_id: NodeId,
    org_root: NodeId,
    now: u64,
    revocations: Revocations,
) -> QueryModel {
    QueryModel {
        self_id: host_id,
        accepted_roots: seq![org_root],
        self_tags: Seq::empty(),
        now,
        requester: host_id,
        action: ABILITY_STABLE@,
        revocations,
    }
}

/// What is asked of the attestation of `host_id`.
pub fn stable_query(
    host_id: &NodeId,
    org_root: &NodeId,
    now: u64,
    revocations: Revocations,
) -> (q: Query)
    ensures
        q@ == query_for(*host_id, *org_root, now, revocations),
{
    let mut accepted_roots: Vec<NodeId> = Vec::new();
    accepted_roots.push(*org_root);
    let self_tags: Vec<String> = Vec::new();
    assert(crate::text::texts(self_tags@) =~= Seq::empty());
    assert(accepted_roots@ =~= seq![*org_root]);
    Query {
        self_id: *host_id,
        accepted_roots,
        self_tags,
        now,
        requester: *host_id,
        action: ABILITY_STABLE.to_owned(),
        revocations,
    }
}

/// Why a token is no stable attestation.
#[derive(Debug, PartialEq, Eq)]
pub enum StableError {
    /// The token does not decode; carries what the decoder said.
    Malformed(String),
    /// The chain has no link.
    EmptyChain,
    /// The first link was not issued by the organization root.
    ForeignRoot,
    /// The chain does not authorize; carries why.
    Unauthorized(String),
}

impl StableError {
    /// What is said of the refusal.
    pub fn message(&self) -> (s: String)
        ensures
            s@ == match self {
                StableError::Malformed(m) => m@,
                StableError::EmptyChain => "empty attestation chain"@,
                StableError::ForeignRoot => "stable attestation does not root at the pinned org root"@,
                StableError::Unauthorized(m) => "not a valid org-root stable attestation: "@ + m@,
            },
    {
        match self {
            StableError::Malformed(m) => m.clone(),
            StableError::EmptyChain => "empty attestation chain".to_owned(),
            StableError::ForeignRoot => "stable attestation does not root at the pinned org root".to_owned(),
            StableError::Unauthorized(m) => {
                let mut s: String = "not a valid org-root stable attestation: ".to_owned();
                s.append(m.as_str());
                s
            },
        }
    }
}

/// The verdict on the issuer of a chain's first link: it must be the organization root. The
/// capability library accepts the host's own key as a root, for what the host delegates of its
/// own; an attestation must not come from there.
pub open spec fn root_verdict(issuer: Option<NodeId>, org_root: NodeId) -> Result<(), StableError> {
    match issuer {
        None => Err(StableError::EmptyChain),
        Some(i) => if i == org_root {
            Ok(())
        } else {
            Err(StableError::ForeignRoot)
        },
    }
}

/// Checks the issuer of a chain's first link.
pub fn check_root(issuer: Option<NodeId>, org_root: &NodeId) -> (r: Result<(), StableError>)
    ensures
        r == root_verdict(issuer, *org_root),
{
    match issuer {
        None => Err(StableError::EmptyChain),
        Some(i) => if same_key(&i, org_root) {
            Ok(())
        } else {
            Err(StableError::ForeignRoot)
        },
    }
}

/// Whether two keys are the same.
fn same_key(a: &NodeId, b: &NodeId) -> (r: bool)
    ensures
        r == (*a == *b),
{
    for i in 0..32usize
        invariant
            forall|j: int| 0 <= j < i ==> a@[j] == b@[j],
    {
        if a[i] != b[i] {
            return false;
        }
    }
    assert(a@ =~= b@);
    assert(*a =~= *b);
    true
}

/// Whether `issuer` is who issued the first link of a chain; `None` where it has no link.
pub open spec fn first_issued<L, R: Fn(&L) -> NodeId>(
    chain: Seq<L>,
    issuer_of: R,
    issuer: Option<NodeId>,
) -> bool {
    match issuer {
        Some(i) => chain.len() > 0 && call_ensures(issuer_of, (&chain[0],), i),
        None => chain.len() == 0,
    }
}

/// Who issued the first link of a chain, as `issuer_of` tells it; `None` where it has no link.
pub fn first_issuer<L, R: Fn(&L) -> NodeId>(chain: &Vec<L>, issuer_of: R) -> (issuer: Option<NodeId>)
    requires
        chain@.len() > 0 ==> call_requires(issuer_of, (&chain@[0],)),
    ensures
        first_issued(chain@, issuer_of, issuer),
{
    if chain.len() == 0 {
        None
    } else {
        Some(issuer_of(&chain[0]))
    }
}

/// What is made of the capability library's answer.
pub open spec fn authorization_verdict(answer: Result<(), String>) -> Result<(), StableError> {
    match answer {
        Ok(_) => Ok(()),
        Err(m) => Err(StableError::Unauthorized(m)),
    }
}

/// Whether `r` is what verification gives where the chain decoded to `chain`.
pub open spec fn chain_verdict<
    L,
    R: Fn(&L) -> NodeId,
    A: Fn(&Query, &Vec<L>) -> Result<(), String>,
>(
    chain: Vec<L>,
    host_id: NodeId,
    org_root: NodeId,
    now: u64,
    revocations: Revocations,
    issuer_of: R,
    authorize: A,
    r: Result<(), StableError>,
) -> bool {
    exists|issuer: Option<NodeId>|
        {
            &&& #[trigger] first_issued(chain@, issuer_of, issuer)
            &&& root_verdict(issuer, org_root) is Err ==> r == root_verdict(issuer, org_root)
            &&& root_verdict(issuer, org_root) is Ok ==> exists|
                q: Query,
                answer: Result<(), String>,
            |
                q@ == query_for(host_id, org_root, now, revocations) && #[trigger] call_ensures(
                    authorize,
                    (&q, &chain),
                    answer,
                ) && r == authorization_verdict(answer)
        }
}

/// Whether `r` is what verification of `token` gives.
pub open spec fn token_verdict<
    L,
    D: Fn(&str) -> Result<Vec<L>, String>,
    R: Fn(&L) -> NodeId,
    A: Fn(&Query, &Vec<L>) -> Result<(), String>,
>(
    token: &str,
    host_id: NodeId,
    org_root: NodeId,
    now: u64,
    revocations: Revocations,
    decode: D,
    issuer_of: R,
    authorize: A,
    r: Result<(), StableError>,
) -> bool {
    exists|decoded: Result<Vec<L>, String>| #[trigger]
        call_ensures(decode, (token,), decoded) && match decoded {
            Err(m) => r == Err::<(), StableError>(StableError::Malformed(m)),
            Ok(chain) => chain_verdict(
                chain,
                host_id,
                org_root,
                now,
                revocations,
                issuer_of,
                authorize,
                r,
            ),
        }
}

/// Whether the functions that verification is handed can be called as it calls them.
pub open spec fn can_verify<
    L,
    D: Fn(&str) -> Result<Vec<L>, String>,
    R: Fn(&L) -> NodeId,
    A: Fn(&Query, &Vec<L>) -> Result<(), String>,
>(
    token: &str,
    host_id: NodeId,
    org_root: NodeId,
    now: u64,
    revocations: Revocations,
    decode: D,
    issuer_of: R,
    authorize: A,
) -> bool {
    &&& call_requires(decode, (token,))
    &&& forall|chain: Vec<L>|
        #[trigger] call_ensures(decode, (token,), Ok::<Vec<L>, String>(chain)) && chain@.len() > 0
            ==> call_requires(issuer_of, (&chain@[0],))
    &&& forall|q: Query, chain: Vec<L>|
        q@ == query_for(host_id, org_root, now, revocations) && call_ensures(
            decode,
            (token,),
            Ok::<Vec<L>, String>(chain),
        ) ==> #[trigger] call_requires(authorize, (&q, &chain))
}

/// Verifies that `token` is a stable attestation of `host_id` by the organization root
/// `org_root`, at `now`.
///
/// `decode` decodes a token to a chain of links, `issuer_of` tells who issued a link, and
/// `authorize` answers a query on a chain. A token that does not decode, a chain without links
/// and a chain that is not rooted at the organization root are refused before the query is asked;
/// else the answer to the query decides.
pub fn verify_stable<
    L,
    D: Fn(&str) -> Result<Vec<L>, String>,
    R: Fn(&L) -> NodeId,
    A: Fn(&Query, &Vec<L>) -> Result<(), String>,
>(
    token: &str,
    host_id: &NodeId,
    org_root: &NodeId,
    now: u64,
    revocations: Revocations,
    decode: D,
    issuer_of: R,
    authorize: A,
) -> (r: Result<(), StableError>)
    requires
        can_verify(
            token,
            *host_id,
            *org_root,
            now,
            revocations,
            decode,
            issuer_of,
            authorize,
        ),
    ensures
        token_verdict(
            token,
            *host_id,
            *org_root,
            now,
            revocations,
            decode,
            issuer_of,
            authorize,
            r,
        ),
{
    let decoded: Result<Vec<L>, String> = decode(token);
    match decoded {
        Err(m) => Err(StableError::Malformed(m)),
        Ok(chain) => {
            let issuer: Option<NodeId> = first_issuer(&chain, issuer_of);
            match check_root(issuer, org_root) {
                Err(e) => Err(e),
                Ok(_) => {
                    let q: Query = stable_query(host_id, org_root, now, revocations);
                    let answer: Result<(), String> = authorize(&q, &chain);
                    match answer {
                        Ok(_) => Ok(()),
                        Err(m) => Err(StableError::Unauthorized(m)),
                    }
                },
            }
        },
    }
}

/// Whether `token` is a stable attestation of `host_id` by `org_root` at `now`, offline: no
/// revocation counts.
pub fn is_stable<
    L,
    D: Fn(&str) -> Result<Vec<L>, String>,
    R: Fn(&L) -> NodeId,
    A: Fn(&Query, &Vec<L>) -> Result<(), String>,
>(
    token: &str,
    host_id: &NodeId,
    org_root: &NodeId,
    now: u64,
    decode: D,
    issuer_of: R,
    authorize: A,
) -> (b: bool)
    requires
        can_verify(
            token,
            *host_id,
            *org_root,
            now,
            Revocations::Offline,
            decode,
            issuer_of,
            authorize,
        ),
    ensures
        exists|r: Result<(), StableError>|
            b == (r is Ok) && #[trigger] token_verdict(
                token,
                *host_id,
                *org_root,
                now,
                Revocations::Offline,
                decode,
                issuer_of,
                authorize,
                r,
            ),
{
    let r: Result<(), StableError> = verify_stable(
        token,
        host_id,
        org_root,
        now,
        Revocations::Offline,
        decode,
        issuer_of,
        authorize,
    );
    r.is_ok()
}

/// A token is accepted only if it decodes to a chain whose first link the organization root
/// issued, and the capability library allows the host the ability `stable` on itself by it.
pub proof fn accepted_means_rooted_and_authorized<
    L,
    D: Fn(&str) -> Result<Vec<L>, String>,
    R: Fn(&L) -> NodeId,
    A: Fn(&Query, &Vec<L>) -> Result<(), String>,
>(
    token: &str,
    host_id: NodeId,
    org_root: NodeId,
    now: u64,
    revocations: Revocations,
    decode: D,
    issuer_of: R,
    authorize: A,
    r: Result<(), StableError>,
)
    requires
        token_verdict(
            token,
            host_id,
            org_root,
            now,
            revocations,
            decode,
            issuer_of,
            authorize,
            r,
        ),
        r is Ok,
    ensures
        exists|chain: Vec<L>, q: Query, answer: Result<(), String>|
            {
                &&& call_ensures(decode, (token,), Ok::<Vec<L>, String>(chain))
                &&& chain@.len() > 0 && call_ensures(issuer_of, (&chain@[0],), org_root)
                &&& q@ == query_for(host_id, org_root, now, revocations)
                &&& #[trigger] call_ensures(authorize, (&q, &chain), answer)
                &&& answer is Ok
            },
{
}

/// A token is accepted where it decodes to chains whose first link the organization root issued,
/// and the capability library allows the host the ability `stable` on itself by each.
pub proof fn rooted_and_authorized_means_accepted<
    L,
    D: Fn(&str) -> Result<Vec<L>, String>,
    R: Fn(&L) -> NodeId,
    A: Fn(&Query, &Vec<L>) -> Result<(), String>,
>(
    token: &str,
    host_id: NodeId,
    org_root: NodeId,
    now: u64,
    revocations: Revocations,
    decode: D,
    issuer_of: R,
    authorize: A,
    r: Result<(), StableError>,
)
    requires
        token_verdict(
            token,
            host_id,
            org_root,
            now,
            revocations,
            decode,
            issuer_of,
            authorize,
            r,
        ),
        forall|decoded: Result<Vec<L>, String>| #[trigger]
            call_ensures(decode, (token,), decoded) ==> decoded is Ok,
        forall|chain: Vec<L>| #[trigger]
            call_ensures(decode, (token,), Ok::<Vec<L>, String>(chain)) ==> chain@.len() > 0,
        forall|chain: Vec<L>, issuer: NodeId|
            call_ensures(decode, (token,), Ok::<Vec<L>, String>(chain)) && #[trigger] call_ensures(
                issuer_of,
                (&chain@[0],),
                issuer,
            ) ==> issuer == org_root,
        forall|q: Query, chain: Vec<L>, answer: Result<(), String>|
            q@ == query_for(host_id, org_root, now, revocations) && call_ensures(
                decode,
                (token,),
                Ok::<Vec<L>, String>(chain),
            ) && #[trigger] call_ensures(authorize, (&q, &chain), answer) ==> answer is Ok,
    ensures
        r is Ok,
{
}

/// A token whose chain was issued by anyone but the organization root is refused, whatever else
/// it holds: a host cannot attest itself, and neither can an impostor.
pub proof fn foreign_attestations_are_refused<
    L,
    D: Fn(&str) -> Result<Vec<L>, String>,
    R: Fn(&L) -> NodeId,
    A: Fn(&Query, &Vec<L>) -> Result<(), String>,
>(
    token: &str,
    host_id: NodeId,
    org_root: NodeId,
    now: u64,
    revocations: Revocations,
    decode: D,
    issuer_of: R,
    authorize: A,
    r: Result<(), StableError>,
)
    requires
        token_verdict(
            token,
            host_id,
            org_root,
            now,
            revocations,
            decode,
            issuer_of,
            authorize,
            r,
        ),
        forall|chain: Vec<L>, issuer: NodeId|
            call_ensures(decode, (token,), Ok::<Vec<L>, String>(chain)) && chain@.len() > 0
                && #[trigger] call_ensures(issuer_of, (&chain@[0],), issuer) ==> issuer != org_root,
    ensures
        r is Err,
        !(r->Err_0 is Unauthorized),
{
}

/// What is minted for a host is what is asked of it: the attestation names the host that presents
/// it, applies to the node at stake, allows the ability asked for, and stands on no other.
pub proof fn minted_terms_answer_the_query<C>(
    host_id: NodeId,
    caveats: C,
    nonce: u64,
    org_root: NodeId,
    now: u64,
    revocations: Revocations,
)
    ensures
        ({
            let t = attestation_terms(host_id, caveats, nonce);
            let q = query_for(host_id, org_root, now, revocations);
            &&& t.audience == q.requester
            &&& t.resource == q.self_id
            &&& t.abilities.contains(q.action)
            &&& t.root_delegation
            &&& t.audience == host_id && t.resource == host_id
            &&& t.abilities.len() == 1
            &&& t.caveats == caveats && t.nonce == nonce
            &&& q.accepted_roots == seq![org_root]
            &&& q.self_id == host_id && q.requester == host_id
            &&& q.self_tags.len() == 0
            &&& q.now == now && q.revocations == revocations
        }),
{
    assert(attestation_terms(host_id, caveats, nonce).abilities[0] == ABILITY_STABLE@);
}

/// How a capability library works, as far as single links go: who issued a link and on which
/// terms, when caveats hold, and which of an issuer's capabilities are revoked.
#[verifier::reject_recursive_types(L)]
#[verifier::reject_recursive_types(C)]
pub struct Authority<L, C> {
    pub issuer: spec_fn(L) -> NodeId,
    pub terms: spec_fn(L) -> TermsModel<C>,
    pub holds: spec_fn(C, u64) -> bool,
    pub revoked: spec_fn(NodeId, u64) -> bool,
}

impl<L, C> Authority<L, C> {
    /// Whether a link answers a query: it is a root delegation by an accepted root (or by the node
    /// at stake), to who presents it, for the node at stake, with the ability asked for; its
    /// caveats hold, and no revocation that counts names it.
    pub open spec fn answers(self, link: L, q: QueryModel) -> bool {
        let t = (self.terms)(link);
        let issuer = (self.issuer)(link);
        &&& t.root_delegation
        &&& q.accepted_roots.contains(issuer) || issuer == q.self_id
        &&& t.audience == q.requester
        &&& t.resource == q.self_id
        &&& t.abilities.contains(q.action)
        &&& (self.holds)(t.caveats, q.now)
        &&& q.revocations is OnChain ==> !(self.revoked)(issuer, t.nonce)
    }

    /// Whether `issue` signs the terms that it is handed, with the key of `root`.
    pub open spec fn signs<I: FnOnce(Terms<C>) -> L>(self, root: NodeId, issue: I) -> bool {
        forall|t: Terms<C>, link: L| #[trigger]
            call_ensures(issue, (t,), link) ==> (self.issuer)(link) == root && (self.terms)(link)
                == t@
    }

    /// Whether `decode` undoes `encode` on chains of one link.
    pub open spec fn reads_back<E: Fn(&[L]) -> String, D: Fn(&str) -> Result<Vec<L>, String>>(
        self,
        encode: E,
        decode: D,
    ) -> bool {
        forall|chain: &[L], written: String, token: &str, decoded: Result<Vec<L>, String>|
            chain@.len() == 1 && #[trigger] call_ensures(encode, (chain,), written) && token@
                == written@ && #[trigger] call_ensures(decode, (token,), decoded) ==> (
            decoded matches Ok(v) && v@ == chain@)
    }

    /// Whether `issuer_of` tells the issuer of a link, and `authorize` accepts exactly what answers
    /// the query, on chains of one link.
    pub open spec fn judges<
        R: Fn(&L) -> NodeId,
        A: Fn(&Query, &Vec<L>) -> Result<(), String>,
    >(self, issuer_of: R, authorize: A) -> bool {
        &&& forall|link: L, issuer: NodeId| #[trigger]
            call_ensures(issuer_of, (&link,), issuer) ==> issuer == (self.issuer)(link)
        &&& forall|q: Query, chain: Vec<L>, answer: Result<(), String>|
            chain@.len() == 1 && #[trigger] call_ensures(authorize, (&q, &chain), answer) ==> (
            answer is Ok <==> self.answers(chain@[0], q@))
    }
}

/// From minting to acceptance: with a capability library that signs what it is handed, reads back
/// what it wrote and accepts what answers a query, the token of a minted attestation is accepted
/// for exactly the attested host and the root that signed, while its caveats hold and no
/// revocation that counts names it. One minted by another key, for another node, or by the host
/// for itself does not count.
pub proof fn minted_attestations_vet_exactly_their_host<
    C,
    L,
    I: FnOnce(Terms<C>) -> L,
    E: Fn(&[L]) -> String,
    D: Fn(&str) -> Result<Vec<L>, String>,
    R: Fn(&L) -> NodeId,
    A: Fn(&Query, &Vec<L>) -> Result<(), String>,
>(
    authority: Authority<L, C>,
    root: NodeId,
    attested: NodeId,
    caveats: C,
    nonce: u64,
    issue: I,
    attestation: L,
    encode: E,
    written: String,
    token: &str,
    host_id: NodeId,
    org_root: NodeId,
    now: u64,
    revocations: Revocations,
    decode: D,
    issuer_of: R,
    authorize: A,
    r: Result<(), StableError>,
)
    requires
        authority.signs(root, issue),
        authority.reads_back(encode, decode),
        authority.judges(issuer_of, authorize),
        exists|t: Terms<C>|
            t@ == attestation_terms(attested, caveats, nonce) && #[trigger] call_ensures(
                issue,
                (t,),
                attestation,
            ),
        exists|chain: &[L]|
            chain@ == seq![attestation] && #[trigger] call_ensures(encode, (chain,), written),
        token@ == written@,
        token_verdict(
            token,
            host_id,
            org_root,
            now,
            revocations,
            decode,
            issuer_of,
            authorize,
            r,
        ),
    ensures
        r is Ok <==> {
            &&& host_id == attested
            &&& org_root == root
            &&& (authority.holds)(caveats, now)
            &&& revocations is OnChain ==> !(authority.revoked)(root, nonce)
        },
{
    let chain = choose|chain: &[L]|
        chain@ == seq![attestation] && #[trigger] call_ensures(encode, (chain,), written);
    let decoded = choose|decoded: Result<Vec<L>, String>| #[trigger]
        call_ensures(decode, (token,), decoded) && match decoded {
            Err(m) => r == Err::<(), StableError>(StableError::Malformed(m)),
            Ok(links) => chain_verdict(
                links,
                host_id,
                org_root,
                now,
                revocations,
                issuer_of,
                authorize,
                r,
            ),
        };
    assert(decoded matches Ok(v) && v@ == chain@);
    let links = decoded->Ok_0;
    assert(links@[0] == attestation);
    assert((authority.issuer)(attestation) == root);
    assert((authority.terms)(attestation) == attestation_terms(attested, caveats, nonce));
    let q = query_for(host_id, org_root, now, revocations);
    assert(attestation_terms(attested, caveats, nonce).abilities[0] == q.action);
    assert(q.accepted_roots[0] == org_root);
}

/// The same of the offline check, for caveats that always hold, such as none: the token of a minted
/// attestation counts for exactly the attested host and the root that signed, at any time.
pub proof fn unbounded_attestations_count_for_exactly_their_host<
    C,
    L,
    I: FnOnce(Terms<C>) -> L,
    E: Fn(&[L]) -> String,
    D: Fn(&str) -> Result<Vec<L>, String>,
    R: Fn(&L) -> NodeId,
    A: Fn(&Query, &Vec<L>) -> Result<(), String>,
>(
    authority: Authority<L, C>,
    root: NodeId,
    attested: NodeId,
    caveats: C,
    nonce: u64,
    issue: I,
    attestation: L,
    encode: E,
    written: String,
    token: &str,
    host_id: NodeId,
    org_root: NodeId,
    now: u64,
    decode: D,
    issuer_of: R,
    authorize: A,
    b: bool,
)
    requires
        authority.signs(root, issue),
        authority.reads_back(encode, decode),
        authority.judges(issuer_of, authorize),
        forall|t: u64| #[trigger] (authority.holds)(caveats, t),
        exists|t: Terms<C>|
            t@ == attestation_terms(attested, caveats, nonce) && #[trigger] call_ensures(
                issue,
                (t,),
                attestation,
            ),
        exists|chain: &[L]|
            chain@ == seq![attestation] && #[trigger] call_ensures(encode, (chain,), written),
        token@ == written@,
        exists|r: Result<(), StableError>|
            b == (r is Ok) && #[trigger] token_verdict(
                token,
                host_id,
                org_root,
                now,
                Revocations::Offline,
                decode,
                issuer_of,
                authorize,
                r,
            ),
    ensures
        b <==> host_id == attested && org_root == root,
{
    let r = choose|r: Result<(), StableError>|
        b == (r is Ok) && #[trigger] token_verdict(
            token,
            host_id,
            org_root,
            now,
            Revocations::Offline,
            decode,
            issuer_of,
            authorize,
            r,
        );
    minted_attestations_vet_exactly_their_host(
        authority,
        root,
        attested,
        caveats,
        nonce,
        issue,
        attestation,
        encode,
        written,
        token,
        host_id,
        org_root,
        now,
        Revocations::Offline,
        decode,
        issuer_of,
        authorize,
        r,
    );
}

/// A refusal says what is wrong: what the decoder said where no chain came out, that the chain is
/// empty, that it is not rooted at the organization root, or what the capability library said.
pub proof fn refusals_say_why<
    L,
    D: Fn(&str) -> Result<Vec<L>, String>,
    R: Fn(&L) -> NodeId,
    A: Fn(&Query, &Vec<L>) -> Result<(), String>,
>(
    token: &str,
    host_id: NodeId,
    org_root: NodeId,
    now: u64,
    revocations: Revocations,
    decode: D,
    issuer_of: R,
    authorize: A,
    r: Result<(), StableError>,
)
    requires
        token_verdict(
            token,
            host_id,
            org_root,
            now,
            revocations,
            decode,
            issuer_of,
            authorize,
            r,
        ),
    ensures
        r matches Err(StableError::Malformed(m)) ==> call_ensures(
            decode,
            (token,),
            Err::<Vec<L>, String>(m),
        ),
        r matches Err(StableError::EmptyChain) ==> exists|chain: Vec<L>|
            #[trigger] call_ensures(decode, (token,), Ok::<Vec<L>, String>(chain)) && chain@.len()
                == 0,
        r matches Err(StableError::ForeignRoot) ==> exists|chain: Vec<L>, issuer: NodeId|
            call_ensures(decode, (token,), Ok::<Vec<L>, String>(chain)) && chain@.len() > 0
                && #[trigger] call_ensures(issuer_of, (&chain@[0],), issuer) && issuer != org_root,
        r matches Err(StableError::Unauthorized(m)) ==> exists|
            chain: Vec<L>,
            q: Query,
            answer: Result<(), String>,
        |
            {
                &&& call_ensures(decode, (token,), Ok::<Vec<L>, String>(chain))
                &&& chain@.len() > 0 && call_ensures(issuer_of, (&chain@[0],), org_root)
                &&& q@ == query_for(host_id, org_root, now, revocations)
                &&& #[trigger] call_ensures(authorize, (&q, &chain), answer)
                &&& answer == Err::<(), String>(m)
            },
{
}

/// The root must be the organization root: a chain with that issuer passes, any other issuer is
/// foreign, and a chain without links has none.
pub proof fn only_the_organization_root_passes(issuer: NodeId, org_root: NodeId)
    ensures
        root_verdict(Some(issuer), org_root) is Ok <==> issuer == org_root,
        root_verdict(Some(issuer), org_root) matches Err(e) ==> e is ForeignRoot,
        root_verdict(None, org_root) matches Err(e) && e is EmptyChain,
{
}

/// What the capability library answers is what counts: its consent is acceptance, and its refusal
/// is passed on as it was said.
pub proof fn the_answer_is_passed_on(said: String)
    ensures
        authorization_verdict(Ok(())) is Ok,
        authorization_verdict(Err(said)) matches Err(StableError::Unauthorized(m)) && m == said,
{
}

} // verus!
