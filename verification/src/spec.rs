//! Deployment specs: the desired state of a workload, its validation and its content address.

use vstd::prelude::*;
use vstd::string::*;
use vstd::utf8::*;

use crate::amount::Amount;
use crate::bytes::{hex_encode, push_le, sha256_digest, to_twos_complement};
use crate::text::{around, clone_texts, lists};

verus! {

/// Per-replica resource request.
#[derive(Clone, Copy, Debug, PartialEq, Eq, Structural)]
pub struct Resources {
    /// CPU cores requested per replica.
    pub cpu_cores: u32,
    /// Memory (MiB) requested per replica.
    pub mem_mb: u64,
}

impl Default for Resources {
    fn default() -> (r: Resources)
        ensures
            r == (Resources { cpu_cores: 1, mem_mb: 256 }),
    {
        Resources { cpu_cores: 1, mem_mb: 256 }
    }
}

/// How replicas are rolled when the pod template changes.
#[derive(Clone, Copy, Debug, PartialEq, Eq, Structural)]
pub enum Strategy {
    /// Replace replicas incrementally, within two absolute budgets.
    RollingUpdate {
        /// How many replicas may be unavailable during the roll.
        max_unavailable: u32,
        /// How many extra replicas may exist above the desired count during the roll.
        max_surge: u32,
    },
    /// Tear every old replica down, then bring the new revision up.
    Recreate,
}

/// The budget that a manifest leaves unsaid.
pub fn one() -> (n: u32)
    ensures
        n == 1,
{
    1
}

impl Default for Strategy {
    fn default() -> (s: Strategy)
        ensures
            s == (Strategy::RollingUpdate { max_unavailable: 1, max_surge: 1 }),
    {
        Strategy::RollingUpdate { max_unavailable: one(), max_surge: one() }
    }
}

/// The runtime, in seconds, that a manifest leaves unsaid.
pub fn default_duration() -> (secs: u64)
    ensures
        secs == 3600,
{
    3600
}

/// The declarative desired state for one workload.
#[derive(Debug, PartialEq, Eq)]
pub struct Deployment {
    /// Unique workload name: 1-63 lowercase letters, digits and hyphens.
    pub name: String,
    /// Container image to run for every replica.
    pub image: String,
    /// Command override (empty: the image's own entrypoint).
    pub command: Vec<String>,
    /// Desired number of running replicas.
    pub replicas: u32,
    /// Per-replica resource request.
    pub resources: Resources,
    /// Only place replicas on hosts that advertise all of these tags; `docker` is implied.
    pub select: Vec<String>,
    /// Max credits to fund each replica.
    pub bid: Amount,
    /// Max expected runtime per replica, in seconds.
    pub duration_secs: u64,
    /// Rollout strategy when the spec changes.
    pub strategy: Strategy,
}

/// What a [`Deployment`] says.
#[verifier::ext_equal]
pub struct DeploymentModel {
    pub name: Seq<char>,
    pub image: Seq<char>,
    pub command: Seq<Seq<char>>,
    pub replicas: u32,
    pub resources: Resources,
    pub select: Seq<Seq<char>>,
    pub bid: Amount,
    pub duration_secs: u64,
    pub strategy: Strategy,
}

impl View for Deployment {
    type V = DeploymentModel;

    open spec fn view(&self) -> DeploymentModel {
        DeploymentModel {
            name: self.name@,
            image: self.image@,
            command: crate::text::texts(self.command@),
            replicas: self.replicas,
            resources: self.resources,
            select: crate::text::texts(self.select@),
            bid: self.bid,
            duration_secs: self.duration_secs,
            strategy: self.strategy,
        }
    }
}

/// The spec that says nothing: no name, no image and no replica.
pub open spec fn blank_deployment() -> DeploymentModel {
    DeploymentModel {
        name: Seq::empty(),
        image: Seq::empty(),
        command: Seq::empty(),
        replicas: 0,
        resources: Resources { cpu_cores: 1, mem_mb: 256 },
        select: Seq::empty(),
        bid: Amount { base: 0 },
        duration_secs: 0,
        strategy: Strategy::RollingUpdate { max_unavailable: 1, max_surge: 1 },
    }
}

impl Default for Deployment {
    fn default() -> (d: Deployment)
        ensures
            d@ == blank_deployment(),
    {
        let d: Deployment = Deployment {
            name: String::new(),
            image: String::new(),
            command: Vec::new(),
            replicas: 0,
            resources: Resources::default(),
            select: Vec::new(),
            bid: Amount::default(),
            duration_secs: 0,
            strategy: Strategy::default(),
        };
        assert(d@ =~= blank_deployment());
        d
    }
}

impl Clone for Deployment {
    fn clone(&self) -> (d: Deployment)
        ensures
            d@ == self@,
    {
        Deployment {
            name: self.name.clone(),
            image: self.image.clone(),
            command: clone_texts(&self.command),
            replicas: self.replicas,
            resources: self.resources,
            select: clone_texts(&self.select),
            bid: self.bid,
            duration_secs: self.duration_secs,
            strategy: self.strategy,
        }
    }
}

/// Why a spec or a manifest is refused. Each problem of a spec carries the deployment's name.
#[derive(Debug, PartialEq, Eq)]
pub enum SpecError {
    /// The name is empty or longer than 63 bytes.
    NameLength(String),
    /// The name starts or ends with a hyphen.
    NameHyphen(String),
    /// The name holds a character other than a lowercase letter, a digit or a hyphen.
    NameCharacter(String),
    /// The image is empty or all white space.
    EmptyImage(String),
    /// No CPU core is requested.
    ZeroCpu(String),
    /// No memory is requested.
    ZeroMemory(String),
    /// The bid is negative.
    NegativeBid(String),
    /// Both budgets of a rolling update are zero, so it can never progress.
    StuckRollingUpdate(String),
    /// The manifest could not be parsed; carries what the parser said.
    Manifest(String),
}

/// What a [`SpecError`] says.
pub enum SpecProblem {
    NameLength(Seq<char>),
    NameHyphen(Seq<char>),
    NameCharacter(Seq<char>),
    EmptyImage(Seq<char>),
    ZeroCpu(Seq<char>),
    ZeroMemory(Seq<char>),
    NegativeBid(Seq<char>),
    StuckRollingUpdate(Seq<char>),
    Manifest(Seq<char>),
}

impl View for SpecError {
    type V = SpecProblem;

    open spec fn view(&self) -> SpecProblem {
        match self {
            SpecError::NameLength(n) => SpecProblem::NameLength(n@),
            SpecError::NameHyphen(n) => SpecProblem::NameHyphen(n@),
            SpecError::NameCharacter(n) => SpecProblem::NameCharacter(n@),
            SpecError::EmptyImage(n) => SpecProblem::EmptyImage(n@),
            SpecError::ZeroCpu(n) => SpecProblem::ZeroCpu(n@),
            SpecError::ZeroMemory(n) => SpecProblem::ZeroMemory(n@),
            SpecError::NegativeBid(n) => SpecProblem::NegativeBid(n@),
            SpecError::StuckRollingUpdate(n) => SpecProblem::StuckRollingUpdate(n@),
            SpecError::Manifest(m) => SpecProblem::Manifest(m@),
        }
    }
}

/// What is said of a problem.
pub open spec fn problem_text(p: SpecProblem) -> Seq<char> {
    match p {
        SpecProblem::NameLength(n) => "name '"@ + n + "' must be 1-63 characters"@,
        SpecProblem::NameHyphen(n) => "name '"@ + n + "' must not start or end with a hyphen"@,
        SpecProblem::NameCharacter(n) => "name '"@ + n
            + "' may only contain lowercase letters, digits, and hyphens"@,
        SpecProblem::EmptyImage(n) => "deployment '"@ + n + "': image must not be empty"@,
        SpecProblem::ZeroCpu(n) => "deployment '"@ + n + "': cpu_cores must be >= 1"@,
        SpecProblem::ZeroMemory(n) => "deployment '"@ + n + "': mem_mb must be >= 1"@,
        SpecProblem::NegativeBid(n) => "deployment '"@ + n + "': bid must not be negative"@,
        SpecProblem::StuckRollingUpdate(n) => "deployment '"@ + n
            + "': rolling update needs max_unavailable>0 or max_surge>0 (else it can never progress)"@,
        SpecProblem::Manifest(m) => "manifest is not valid YAML/JSON: "@ + m,
    }
}

impl SpecError {
    /// What is said of the problem.
    pub fn message(&self) -> (s: String)
        ensures
            s@ == problem_text(self@),
    {
        match self {
            SpecError::NameLength(n) => around("name '", n.as_str(), "' must be 1-63 characters"),
            SpecError::NameHyphen(n) => around(
                "name '",
                n.as_str(),
                "' must not start or end with a hyphen",
            ),
            SpecError::NameCharacter(n) => around(
                "name '",
                n.as_str(),
                "' may only contain lowercase letters, digits, and hyphens",
            ),
            SpecError::EmptyImage(n) => around(
                "deployment '",
                n.as_str(),
                "': image must not be empty",
            ),
            SpecError::ZeroCpu(n) => around(
                "deployment '",
                n.as_str(),
                "': cpu_cores must be >= 1",
            ),
            SpecError::ZeroMemory(n) => around(
                "deployment '",
                n.as_str(),
                "': mem_mb must be >= 1",
            ),
            SpecError::NegativeBid(n) => around(
                "deployment '",
                n.as_str(),
                "': bid must not be negative",
            ),
            SpecError::StuckRollingUpdate(n) => around(
                "deployment '",
                n.as_str(),
                "': rolling update needs max_unavailable>0 or max_surge>0 (else it can never progress)",
            ),
            SpecError::Manifest(m) => {
                let mut s: String = "manifest is not valid YAML/JSON: ".to_owned();
                s.append(m.as_str());
                s
            },
        }
    }
}

/// Characters that a deployment name may hold.
pub open spec fn name_char(c: char) -> bool {
    ('a' <= c && c <= 'z') || ('0' <= c && c <= '9') || c == '-'
}

/// The first problem of a deployment name, if it has one.
pub open spec fn name_problem(name: Seq<char>) -> Option<SpecProblem> {
    if encode_utf8(name).len() == 0 || encode_utf8(name).len() > 63 {
        Some(SpecProblem::NameLength(name))
    } else if name.first() == '-' || name.last() == '-' {
        Some(SpecProblem::NameHyphen(name))
    } else if exists|i: int| 0 <= i < name.len() && !name_char(#[trigger] name[i]) {
        Some(SpecProblem::NameCharacter(name))
    } else {
        None
    }
}

/// Characters with the Unicode property `White_Space`.
pub open spec fn white_space(c: char) -> bool {
    let u = c as u32;
    ||| 0x9 <= u <= 0xd
    ||| u == 0x20
    ||| u == 0x85
    ||| u == 0xa0
    ||| u == 0x1680
    ||| 0x2000 <= u <= 0x200a
    ||| u == 0x2028
    ||| u == 0x2029
    ||| u == 0x202f
    ||| u == 0x205f
    ||| u == 0x3000
}

/// Texts that hold nothing but white space.
pub open spec fn blank(s: Seq<char>) -> bool {
    forall|i: int| 0 <= i < s.len() ==> white_space(#[trigger] s[i])
}

/// The first problem of a spec, if it has one.
pub open spec fn spec_problem(d: DeploymentModel) -> Option<SpecProblem> {
    if name_problem(d.name) is Some {
        name_problem(d.name)
    } else if blank(d.image) {
        Some(SpecProblem::EmptyImage(d.name))
    } else if d.resources.cpu_cores == 0 {
        Some(SpecProblem::ZeroCpu(d.name))
    } else if d.resources.mem_mb == 0 {
        Some(SpecProblem::ZeroMemory(d.name))
    } else if d.bid.base < 0 {
        Some(SpecProblem::NegativeBid(d.name))
    } else if d.strategy == (Strategy::RollingUpdate { max_unavailable: 0, max_surge: 0 }) {
        Some(SpecProblem::StuckRollingUpdate(d.name))
    } else {
        None
    }
}

/// Whether `c` has the Unicode property `White_Space`.
pub fn is_white_space(c: char) -> (r: bool)
    ensures
        r == white_space(c),
{
    let u: u32 = c as u32;
    (0x9 <= u && u <= 0xd) || u == 0x20 || u == 0x85 || u == 0xa0 || u == 0x1680 || (0x2000 <= u
        && u <= 0x200a) || u == 0x2028 || u == 0x2029 || u == 0x202f || u == 0x205f || u == 0x3000
}

/// Whether `s` holds nothing but white space.
pub fn is_blank(s: &str) -> (r: bool)
    ensures
        r == blank(s@),
{
    for c in it: s.chars()
        invariant
            it.seq() == s@,
            forall|j: int| 0 <= j < it.index() ==> white_space(#[trigger] s@[j]),
    {
        if !is_white_space(c) {
            assert(!white_space(s@[it.index()]));
            return false;
        }
    }
    true
}

/// Checks a deployment name: 1-63 bytes, lowercase letters, digits and hyphens, with no hyphen at
/// either end. The first rule broken is the one reported.
pub fn validate_name(name: &str) -> (r: Result<(), SpecError>)
    ensures
        match r {
            Ok(_) => name_problem(name@) is None,
            Err(e) => name_problem(name@) == Some(e@),
        },
{
    let len: usize = name.as_bytes().len();
    if len == 0 || len > 63 {
        return Err(SpecError::NameLength(name.to_owned()));
    }
    let mut first: bool = true;
    let mut starts: bool = false;
    let mut ends: bool = false;
    let mut foreign: bool = false;
    for c in it: name.chars()
        invariant
            it.seq() == name@,
            first == (it.index() == 0),
            it.index() > 0 ==> starts == (name@[0] == '-') && ends == (name@[it.index() - 1] == '-'),
            foreign == exists|i: int| 0 <= i < it.index() && !name_char(#[trigger] name@[i]),
    {
        if first {
            starts = c == '-';
            first = false;
        }
        ends = c == '-';
        if !(('a' <= c && c <= 'z') || ('0' <= c && c <= '9') || c == '-') {
            assert(!name_char(name@[it.index()]));
            foreign = true;
        }
    }
    assert(name@.len() > 0) by {
        if name@.len() == 0 {
            assert(encode_utf8(name@) =~= Seq::<u8>::empty());
        }
    }
    if starts || ends {
        return Err(SpecError::NameHyphen(name.to_owned()));
    }
    if foreign {
        return Err(SpecError::NameCharacter(name.to_owned()));
    }
    Ok(())
}

/// What becomes of a parsed manifest: the deployment it holds, or the first problem.
pub open spec fn manifest_outcome(parsed: Result<DeploymentModel, Seq<char>>) -> Result<
    DeploymentModel,
    SpecProblem,
> {
    match parsed {
        Err(m) => Err(SpecProblem::Manifest(m)),
        Ok(d) => match spec_problem(d) {
            Some(p) => Err(p),
            None => Ok(d),
        },
    }
}

/// What a parser returned, over the models.
pub open spec fn parsed_model(parsed: Result<Deployment, String>) -> Result<
    DeploymentModel,
    Seq<char>,
> {
    match parsed {
        Ok(d) => Ok(d@),
        Err(m) => Err(m@),
    }
}

/// What was made of a manifest, over the models.
pub open spec fn outcome_model(r: Result<Deployment, SpecError>) -> Result<
    DeploymentModel,
    SpecProblem,
> {
    match r {
        Ok(d) => Ok(d@),
        Err(e) => Err(e@),
    }
}

/// The tags that a host must advertise: `docker`, then each selected tag not yet listed.
pub open spec fn tags_for(select: Seq<Seq<char>>) -> Seq<Seq<char>>
    decreases select.len(),
{
    if select.len() == 0 {
        seq!["docker"@]
    } else {
        let tags = tags_for(select.drop_last());
        if tags.contains(select.last()) {
            tags
        } else {
            tags.push(select.last())
        }
    }
}

/// The words of a command, each closed by a NUL byte.
pub open spec fn command_bytes(command: Seq<Seq<char>>) -> Seq<u8>
    decreases command.len(),
{
    if command.len() == 0 {
        Seq::empty()
    } else {
        command_bytes(command.drop_last()) + encode_utf8(command.last()).push(0)
    }
}

/// The numbers of the pod template, each in its full width, least significant byte first.
pub open spec fn number_bytes(d: DeploymentModel) -> Seq<u8> {
    crate::bytes::le_bytes(d.resources.cpu_cores as nat, 4) + crate::bytes::le_bytes(
        d.resources.mem_mb as nat,
        8,
    ) + crate::bytes::le_bytes(crate::bytes::twos_complement(d.bid.base), 16)
        + crate::bytes::le_bytes(d.duration_secs as nat, 8)
}

/// The pod template, written out: the image and the words of the command, each closed by a NUL
/// byte, then the numbers.
pub open spec fn template(d: DeploymentModel) -> Seq<u8> {
    encode_utf8(d.image).push(0) + command_bytes(d.command) + number_bytes(d)
}

/// The label of a digest: its first eight bytes in hexadecimal.
pub open spec fn label(digest: Seq<u8>) -> Seq<char> {
    crate::bytes::hex_text(digest.take(8))
}

/// The label of a digest: its first eight bytes in hexadecimal.
pub fn revision_label(digest: &[u8]) -> (text: String)
    requires
        digest@.len() >= 8,
    ensures
        text@ == label(digest@),
        text@.len() == 16,
{
    let (head, _) = digest.split_at(8);
    assert(head@ =~= digest@.take(8));
    hex_encode(head)
}

impl Deployment {
    /// The pod template, written out for hashing. Where replicas go and how many there are is not
    /// part of it.
    pub fn template_bytes(&self) -> (out: Vec<u8>)
        ensures
            out@ == template(self@),
    {
        let mut out: Vec<u8> = Vec::new();
        push_text(&mut out, self.image.as_str());
        for i in 0..self.command.len()
            invariant
                out@ == encode_utf8(self@.image).push(0) + command_bytes(
                    self@.command.take(i as int),
                ),
        {
            let ghost done = self@.command.take(i as int);
            let ghost next = self@.command.take(i + 1);
            assert(next.drop_last() =~= done);
            assert(next.last() == self.command@[i as int]@);
            push_text(&mut out, self.command[i].as_str());
            assert(out@ =~= encode_utf8(self@.image).push(0) + command_bytes(next));
        }
        assert(self@.command.take(self@.command.len() as int) =~= self@.command);
        push_le(&mut out, self.resources.cpu_cores as u128, 4);
        push_le(&mut out, self.resources.mem_mb as u128, 8);
        push_le(&mut out, to_twos_complement(self.bid.base()), 16);
        push_le(&mut out, self.duration_secs as u128, 8);
        assert(out@ =~= template(self@));
        out
    }

    /// The content address of the pod template: the label of its SHA-256 digest. Deployments with
    /// one template share a revision whatever their replica counts, so scaling is no rollout.
    pub fn revision(&self) -> (text: String)
        requires
            template(self@).len() <= 0x1fff_ffff_ffff_ffff,
        ensures
            text@ == label(crate::bytes::sha256(template(self@))),
            text@.len() == 16,
    {
        let digest: Vec<u8> = sha256_digest(self.template_bytes().as_slice());
        revision_label(digest.as_slice())
    }

    /// Checks the spec; the first problem found is the one reported.
    pub fn validate(&self) -> (r: Result<(), SpecError>)
        ensures
            match r {
                Ok(_) => spec_problem(self@) is None,
                Err(e) => spec_problem(self@) == Some(e@),
            },
    {
        match validate_name(self.name.as_str()) {
            Ok(_) => {},
            Err(e) => {
                return Err(e);
            },
        }
        if is_blank(self.image.as_str()) {
            return Err(SpecError::EmptyImage(self.name.clone()));
        }
        if self.resources.cpu_cores == 0 {
            return Err(SpecError::ZeroCpu(self.name.clone()));
        }
        if self.resources.mem_mb == 0 {
            return Err(SpecError::ZeroMemory(self.name.clone()));
        }
        if self.bid.base() < 0 {
            return Err(SpecError::NegativeBid(self.name.clone()));
        }
        if let Strategy::RollingUpdate { max_unavailable, max_surge } = self.strategy {
            if max_unavailable == 0 && max_surge == 0 {
                return Err(SpecError::StuckRollingUpdate(self.name.clone()));
            }
        }
        Ok(())
    }

    /// The tags that a host must advertise to be a placement candidate: `docker` and the selected
    /// tags, each once, in order of first mention.
    pub fn required_tags(&self) -> (tags: Vec<String>)
        ensures
            crate::text::texts(tags@) == tags_for(self@.select),
    {
        let mut tags: Vec<String> = Vec::new();
        tags.push("docker".to_owned());
        assert(crate::text::texts(tags@) =~= tags_for(self@.select.take(0)));
        for i in 0..self.select.len()
            invariant
                crate::text::texts(tags@) == tags_for(self@.select.take(i as int)),
        {
            assert(self@.select.take(i + 1).drop_last() =~= self@.select.take(i as int));
            let tag: &String = &self.select[i];
            let ghost was = crate::text::texts(tags@);
            if !lists(&tags, tag.as_str()) {
                tags.push(tag.clone());
                assert(crate::text::texts(tags@) =~= was.push(tag@));
            }
        }
        assert(self@.select.take(self@.select.len() as int) =~= self@.select);
        tags
    }

    /// What becomes of a parsed manifest: a parse failure is reported as such, and a deployment
    /// comes back only if it is valid.
    pub fn from_parsed(parsed: Result<Deployment, String>) -> (r: Result<Deployment, SpecError>)
        ensures
            outcome_model(r) == manifest_outcome(parsed_model(parsed)),
    {
        match parsed {
            Err(m) => Err(SpecError::Manifest(m)),
            Ok(d) => match d.validate() {
                Ok(_) => Ok(d),
                Err(e) => Err(e),
            },
        }
    }

    /// Parses a manifest with `parse` and validates what it holds.
    pub fn from_manifest<P: Fn(&str) -> Result<Deployment, String>>(s: &str, parse: P) -> (r: Result<
        Deployment,
        SpecError,
    >)
        requires
            call_requires(parse, (s,)),
        ensures
            exists|parsed: Result<Deployment, String>|
                #[trigger] call_ensures(parse, (s,), parsed) && outcome_model(r)
                    == manifest_outcome(parsed_model(parsed)),
    {
        let parsed: Result<Deployment, String> = parse(s);
        Deployment::from_parsed(parsed)
    }
}

/// Appends a text and a NUL byte.
fn push_text(out: &mut Vec<u8>, s: &str)
    ensures
        final(out)@ == old(out)@ + encode_utf8(s@).push(0),
{
    let bytes: &[u8] = s.as_bytes();
    out.extend_from_slice(bytes);
    out.push(0);
    assert(out@ =~= old(out)@ + encode_utf8(s@).push(0));
}

} // verus!
