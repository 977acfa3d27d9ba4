//! What holds of deployment specs as a whole: what a revision depends on, what it tells apart, and
//! which tags placement asks for.

use vstd::prelude::*;
use vstd::utf8::*;

use crate::spec::{Deployment, DeploymentModel, SpecError, SpecProblem, Strategy};

verus! {

/// Texts without the NUL character.
pub open spec fn nul_free(s: Seq<char>) -> bool {
    forall|i: int| 0 <= i < s.len() ==> #[trigger] s[i] as u32 != 0
}

/// Texts none of which holds the NUL character.
pub open spec fn all_nul_free(words: Seq<Seq<char>>) -> bool {
    forall|i: int| 0 <= i < words.len() ==> nul_free(#[trigger] words[i])
}

proof fn lemma_scalar_bytes_nonzero(v: u32)
    requires
        is_scalar(v),
        v != 0,
    ensures
        forall|j: int| 0 <= j < encode_scalar(v).len() ==> #[trigger] encode_scalar(v)[j] != 0,
{
    assert(0 < v <= 0x7F ==> (v & 0x7F) as u8 != 0) by (bit_vector);
    assert(0xC0 | ((v >> 6) & 0x1F) as u8 != 0) by (bit_vector);
    assert(0xE0 | ((v >> 12) & 0x0F) as u8 != 0) by (bit_vector);
    assert(0xF0 | ((v >> 18) & 0x7) as u8 != 0) by (bit_vector);
    assert(0x80 | (v & 0x3F) as u8 != 0) by (bit_vector);
    assert(0x80 | ((v >> 6) & 0x3F) as u8 != 0) by (bit_vector);
    assert(0x80 | ((v >> 12) & 0x3F) as u8 != 0) by (bit_vector);
}

proof fn lemma_nul_free_bytes(s: Seq<char>)
    requires
        nul_free(s),
    ensures
        forall|j: int| 0 <= j < encode_utf8(s).len() ==> #[trigger] encode_utf8(s)[j] != 0,
    decreases s.len(),
{
    if s.len() > 0 {
        let rest = s.drop_first();
        assert(nul_free(rest)) by {
            assert forall|i: int| 0 <= i < rest.len() implies #[trigger] rest[i] as u32 != 0 by {
                assert(rest[i] == s[i + 1]);
            }
        }
        lemma_nul_free_bytes(rest);
        char_is_scalar(s[0]);
        lemma_scalar_bytes_nonzero(s[0] as u32);
        let head = encode_scalar(s[0] as u32);
        assert forall|j: int| 0 <= j < encode_utf8(s).len() implies #[trigger] encode_utf8(s)[j]
            != 0 by {
            if j < head.len() {
                assert(encode_utf8(s)[j] == head[j]);
            } else {
                assert(encode_utf8(s)[j] == encode_utf8(rest)[j - head.len()]);
            }
        }
    }
}

proof fn lemma_words_front(image: Seq<char>, command: Seq<Seq<char>>)
    ensures
        crate::spec::command_bytes(seq![image] + command) == encode_utf8(image).push(0)
            + crate::spec::command_bytes(command),
    decreases command.len(),
{
    let all = seq![image] + command;
    if command.len() == 0 {
        assert(all.drop_last() =~= Seq::<Seq<char>>::empty());
        assert(crate::spec::command_bytes(all.drop_last()) =~= Seq::<u8>::empty());
        assert(crate::spec::command_bytes(all) =~= encode_utf8(image).push(0));
        assert(encode_utf8(image).push(0) + Seq::<u8>::empty() =~= encode_utf8(image).push(0));
    } else {
        lemma_words_front(image, command.drop_last());
        assert(all.drop_last() =~= seq![image] + command.drop_last());
        assert(all.last() == command.last());
        assert(crate::spec::command_bytes(all) =~= encode_utf8(image).push(0)
            + crate::spec::command_bytes(command));
    }
}

proof fn lemma_words_injective(a: Seq<Seq<char>>, b: Seq<Seq<char>>)
    requires
        all_nul_free(a),
        all_nul_free(b),
        crate::spec::command_bytes(a) == crate::spec::command_bytes(b),
    ensures
        a == b,
    decreases a.len(),
{
    lemma_words_end(a);
    lemma_words_end(b);
    if a.len() == 0 || b.len() == 0 {
        assert(a =~= b);
    } else {
        let p = crate::spec::command_bytes(a.drop_last());
        let q = crate::spec::command_bytes(b.drop_last());
        let x = encode_utf8(a.last());
        let y = encode_utf8(b.last());
        let all = crate::spec::command_bytes(a);
        assert(nul_free(a[a.len() - 1]));
        assert(nul_free(b[b.len() - 1]));
        lemma_nul_free_bytes(a.last());
        lemma_nul_free_bytes(b.last());
        lemma_words_end(a.drop_last());
        lemma_words_end(b.drop_last());
        assert(all == p + x.push(0));
        assert(all == q + y.push(0));
        assert(all.len() == p.len() + x.len() + 1);
        assert(all.len() == q.len() + y.len() + 1);
        if x.len() < y.len() {
            assert(p.len() > q.len());
            let k = p.len() - 1;
            assert(all[k] == p[k]);
            assert(all[k] == y[k - q.len()]);
        } else if y.len() < x.len() {
            assert(q.len() > p.len());
            let k = q.len() - 1;
            assert(all[k] == q[k]);
            assert(all[k] == x[k - p.len()]);
        } else {
            assert(p =~= all.take(p.len() as int));
            assert(q =~= all.take(q.len() as int));
            assert(x =~= all.subrange(p.len() as int, (p.len() + x.len()) as int));
            assert(y =~= all.subrange(q.len() as int, (q.len() + y.len()) as int));
            crate::text::encoding_is_injective(a.last(), b.last());
            lemma_words_injective(a.drop_last(), b.drop_last());
            assert(a =~= a.drop_last().push(a.last()));
            assert(b =~= b.drop_last().push(b.last()));
        }
    }
}

proof fn lemma_words_end(a: Seq<Seq<char>>)
    ensures
        a.len() == 0 <==> crate::spec::command_bytes(a).len() == 0,
        a.len() > 0 ==> crate::spec::command_bytes(a).last() == 0,
{
    if a.len() > 0 {
        let p = crate::spec::command_bytes(a.drop_last());
        let x = encode_utf8(a.last());
        assert((p + x.push(0)).len() == p.len() + x.len() + 1);
    }
}

proof fn lemma_numbers(a: DeploymentModel, b: DeploymentModel)
    ensures
        crate::spec::number_bytes(a).len() == 36,
        crate::spec::number_bytes(a) == crate::spec::number_bytes(b) ==> a.resources == b.resources
            && a.bid == b.bid && a.duration_secs == b.duration_secs,
{
    reveal_with_fuel(vstd::arithmetic::power::pow, 17);
    let na = crate::spec::number_bytes(a);
    let nb = crate::spec::number_bytes(b);
    let ta = crate::bytes::twos_complement(a.bid.base);
    let tb = crate::bytes::twos_complement(b.bid.base);
    crate::bytes::le_bytes_is_injective(
        a.resources.cpu_cores as nat,
        b.resources.cpu_cores as nat,
        4,
    );
    crate::bytes::le_bytes_is_injective(
        b.resources.cpu_cores as nat,
        a.resources.cpu_cores as nat,
        4,
    );
    crate::bytes::le_bytes_is_injective(a.resources.mem_mb as nat, b.resources.mem_mb as nat, 8);
    crate::bytes::le_bytes_is_injective(b.resources.mem_mb as nat, a.resources.mem_mb as nat, 8);
    crate::bytes::le_bytes_is_injective(ta, tb, 16);
    crate::bytes::le_bytes_is_injective(tb, ta, 16);
    crate::bytes::le_bytes_is_injective(a.duration_secs as nat, b.duration_secs as nat, 8);
    crate::bytes::le_bytes_is_injective(b.duration_secs as nat, a.duration_secs as nat, 8);
    if na == nb {
        assert(na.subrange(0, 4) =~= crate::bytes::le_bytes(a.resources.cpu_cores as nat, 4));
        assert(nb.subrange(0, 4) =~= crate::bytes::le_bytes(b.resources.cpu_cores as nat, 4));
        assert(na.subrange(4, 12) =~= crate::bytes::le_bytes(a.resources.mem_mb as nat, 8));
        assert(nb.subrange(4, 12) =~= crate::bytes::le_bytes(b.resources.mem_mb as nat, 8));
        assert(na.subrange(12, 28) =~= crate::bytes::le_bytes(ta, 16));
        assert(nb.subrange(12, 28) =~= crate::bytes::le_bytes(tb, 16));
        assert(na.subrange(28, 36) =~= crate::bytes::le_bytes(a.duration_secs as nat, 8));
        assert(nb.subrange(28, 36) =~= crate::bytes::le_bytes(b.duration_secs as nat, 8));
        assert(vstd::arithmetic::power::pow(256, 4) == 0x1_0000_0000);
        assert(vstd::arithmetic::power::pow(256, 8) == 0x1_0000_0000_0000_0000);
        assert(vstd::arithmetic::power::pow(256, 16)
            == 0x1_0000_0000_0000_0000_0000_0000_0000_0000);
    }
}

/// Deployments with one pod template share a revision: the name, the replica count, the selected
/// tags and the strategy play no part in it.
pub proof fn revision_depends_on_the_template_alone(a: DeploymentModel, b: DeploymentModel)
    requires
        a.image == b.image,
        a.command == b.command,
        a.resources == b.resources,
        a.bid == b.bid,
        a.duration_secs == b.duration_secs,
    ensures
        crate::spec::template(a) == crate::spec::template(b),
        crate::spec::label(crate::bytes::sha256(crate::spec::template(a))) == crate::spec::label(
            crate::bytes::sha256(crate::spec::template(b)),
        ),
{
}

/// A change of the resources, the bid or the duration changes what is hashed.
pub proof fn template_tells_numbers_apart(a: DeploymentModel, b: DeploymentModel)
    requires
        crate::spec::template(a) == crate::spec::template(b),
    ensures
        a.resources == b.resources,
        a.bid == b.bid,
        a.duration_secs == b.duration_secs,
{
    let t = crate::spec::template(a);
    lemma_numbers(a, b);
    lemma_numbers(b, a);
    assert(t.skip(t.len() - 36) =~= crate::spec::number_bytes(a));
    assert(t.skip(t.len() - 36) =~= crate::spec::number_bytes(b));
}

/// How much is hashed: the bytes of the image and of the words of the command, one more for each,
/// and thirty-six for the numbers.
pub proof fn template_length(d: DeploymentModel)
    ensures
        crate::spec::template(d).len() == encode_utf8(d.image).len() + 1
            + crate::spec::command_bytes(d.command).len() + 36,
{
    lemma_numbers(d, d);
}

/// A change of the image alone changes what is hashed.
pub proof fn template_tells_images_apart(a: DeploymentModel, b: DeploymentModel)
    requires
        a.command == b.command,
        crate::spec::template(a) == crate::spec::template(b),
    ensures
        a.image == b.image,
{
    let t = crate::spec::template(a);
    lemma_numbers(a, b);
    lemma_numbers(b, a);
    let x = encode_utf8(a.image);
    let y = encode_utf8(b.image);
    let rest = crate::spec::command_bytes(a.command).len() + 36;
    assert(t.len() == x.len() + 1 + rest);
    assert(t.len() == y.len() + 1 + rest);
    assert(x =~= t.take(x.len() as int));
    assert(y =~= t.take(y.len() as int));
    crate::text::encoding_is_injective(a.image, b.image);
}

/// The hashed bytes determine the pod template, where no text holds a NUL character: equal bytes
/// come from equal images, commands, resources, bids and durations.
pub proof fn template_determines_the_pod(a: DeploymentModel, b: DeploymentModel)
    requires
        nul_free(a.image),
        all_nul_free(a.command),
        nul_free(b.image),
        all_nul_free(b.command),
        crate::spec::template(a) == crate::spec::template(b),
    ensures
        a.image == b.image,
        a.command == b.command,
        a.resources == b.resources,
        a.bid == b.bid,
        a.duration_secs == b.duration_secs,
{
    template_tells_numbers_apart(a, b);
    lemma_numbers(a, b);
    lemma_numbers(b, a);
    let t = crate::spec::template(a);
    let wa = seq![a.image] + a.command;
    let wb = seq![b.image] + b.command;
    lemma_words_front(a.image, a.command);
    lemma_words_front(b.image, b.command);
    assert(t.take(t.len() - 36) =~= crate::spec::command_bytes(wa));
    assert(t.take(t.len() - 36) =~= crate::spec::command_bytes(wb));
    assert(all_nul_free(wa)) by {
        assert forall|i: int| 0 <= i < wa.len() implies nul_free(#[trigger] wa[i]) by {
            if i > 0 {
                assert(wa[i] == a.command[i - 1]);
            }
        }
    }
    assert(all_nul_free(wb)) by {
        assert forall|i: int| 0 <= i < wb.len() implies nul_free(#[trigger] wb[i]) by {
            if i > 0 {
                assert(wb[i] == b.command[i - 1]);
            }
        }
    }
    lemma_words_injective(wa, wb);
    assert(wa[0] == wb[0]);
    assert(a.command =~= wa.skip(1));
    assert(b.command =~= wb.skip(1));
}

/// Placement always asks for `docker`, first; it asks for a tag exactly if the tag is `docker` or
/// selected; and it asks for no tag twice.
pub proof fn required_tags_are_docker_and_the_selected(select: Seq<Seq<char>>)
    ensures
        crate::spec::tags_for(select).len() > 0,
        crate::spec::tags_for(select)[0] == "docker"@,
        crate::spec::tags_for(select).no_duplicates(),
        forall|t: Seq<char>| #[trigger]
            crate::spec::tags_for(select).contains(t) <==> t == "docker"@ || select.contains(t),
    decreases select.len(),
{
    let tags = crate::spec::tags_for(select);
    if select.len() == 0 {
        assert(tags[0] == "docker"@);
    } else {
        let front = select.drop_last();
        let before = crate::spec::tags_for(front);
        required_tags_are_docker_and_the_selected(front);
        assert forall|t: Seq<char>| #[trigger]
            crate::spec::tags_for(select).contains(t) <==> t == "docker"@ || select.contains(t) by {
            assert(select.contains(t) <==> front.contains(t) || t == select.last()) by {
                if front.contains(t) {
                    let i = choose|i: int| 0 <= i < front.len() && front[i] == t;
                    assert(select[i] == t);
                }
                if select.contains(t) && t != select.last() {
                    let i = choose|i: int| 0 <= i < select.len() && select[i] == t;
                    assert(front[i] == t);
                }
                assert(select[select.len() - 1] == select.last());
            }
            assert(tags.contains(t) <==> before.contains(t) || t == select.last()) by {
                if before.contains(t) {
                    let i = choose|i: int| 0 <= i < before.len() && before[i] == t;
                    assert(tags[i] == t);
                }
                if !before.contains(select.last()) {
                    assert(tags[tags.len() - 1] == select.last());
                }
            }
        }
    }
}

/// Whether a spec is valid does not hang on the replica count, so a service scaled to zero is
/// legal and scaling never makes a spec invalid.
pub proof fn validity_ignores_the_replica_count(d: DeploymentModel, n: u32)
    ensures
        crate::spec::spec_problem(DeploymentModel { replicas: n, ..d }) == crate::spec::spec_problem(
            d,
        ),
{
}

/// A manifest is accepted exactly if it parses and its spec is valid, and then the parsed spec
/// comes back unchanged: no invalid spec ever leaves the parser.
pub proof fn accepted_manifests_are_valid(parsed: Result<DeploymentModel, Seq<char>>)
    ensures
        crate::spec::manifest_outcome(parsed) is Ok <==> parsed is Ok && crate::spec::spec_problem(
            parsed->Ok_0,
        ) is None,
        crate::spec::manifest_outcome(parsed) is Ok ==> crate::spec::manifest_outcome(parsed)->Ok_0
            == parsed->Ok_0,
{
}

/// A character of a deployment name: a lowercase letter, a digit or a hyphen.
pub open spec fn plain_char(c: char) -> bool {
    97 <= c as int <= 122 || 48 <= c as int <= 57 || c as int == 45
}

/// Which names are valid: those of 1 to 63 bytes that hold nothing but lowercase letters, digits
/// and hyphens, with no hyphen at either end.
pub proof fn which_names_are_valid(name: Seq<char>)
    ensures
        crate::spec::name_problem(name) is None <==> {
            &&& 1 <= encode_utf8(name).len() <= 63
            &&& name.first() as int != 45
            &&& name[name.len() - 1] as int != 45
            &&& forall|i: int| 0 <= i < name.len() ==> plain_char(#[trigger] name[i])
        },
{
    assert forall|i: int| 0 <= i < name.len() implies (plain_char(#[trigger] name[i])
        <==> crate::spec::name_char(name[i])) by {}
    if name.len() == 0 {
        assert(encode_utf8(name) =~= Seq::<u8>::empty());
    }
}

/// Which problem of a name is reported, and that it is one the name has: the length comes before
/// the hyphens, and the hyphens before the characters.
pub proof fn which_problem_a_name_has(name: Seq<char>)
    ensures
        ({
            let p = crate::spec::name_problem(name);
            let long = encode_utf8(name).len() < 1 || encode_utf8(name).len() > 63;
            let hyphen = name[0] as int == 45 || name[name.len() - 1] as int == 45;
            let foreign = exists|i: int| 0 <= i < name.len() && !plain_char(#[trigger] name[i]);
            &&& p == Some(SpecProblem::NameLength(name)) <==> long
            &&& p == Some(SpecProblem::NameHyphen(name)) <==> !long && hyphen
            &&& p == Some(SpecProblem::NameCharacter(name)) <==> !long && !hyphen && foreign
            &&& p is Some ==> p == Some(SpecProblem::NameLength(name)) || p == Some(
                SpecProblem::NameHyphen(name),
            ) || p == Some(SpecProblem::NameCharacter(name))
        }),
{
    assert forall|i: int| 0 <= i < name.len() implies (plain_char(#[trigger] name[i])
        <==> crate::spec::name_char(name[i])) by {}
    if name.len() == 0 {
        assert(encode_utf8(name) =~= Seq::<u8>::empty());
    }
}

/// Whether a rolling update with these budgets, or a recreation, can progress.
pub open spec fn can_progress(s: Strategy) -> bool {
    match s {
        Strategy::RollingUpdate { max_unavailable, max_surge } => max_unavailable > 0 || max_surge > 0,
        Strategy::Recreate => true,
    }
}

/// Which specs are valid: those with a valid name, something other than white space in the image,
/// at least one core and one MiB, a bid that is not negative, and a strategy that can progress. The
/// command, the replica count, the tags and the duration do not matter.
pub proof fn which_specs_are_valid(d: DeploymentModel)
    ensures
        crate::spec::spec_problem(d) is None <==> {
            &&& crate::spec::name_problem(d.name) is None
            &&& exists|i: int| 0 <= i < d.image.len() && !crate::spec::white_space(#[trigger] d.image[i])
            &&& d.resources.cpu_cores >= 1
            &&& d.resources.mem_mb >= 1
            &&& d.bid.base >= 0
            &&& can_progress(d.strategy)
        },
{
}

/// Where a spec has one problem alone, it is the one reported, with the deployment's name; and of
/// several the first in this order: the name, the image, the cores, the memory, the bid, the
/// strategy.
pub proof fn which_problem_a_spec_has(d: DeploymentModel)
    ensures
        ({
            let p = crate::spec::spec_problem(d);
            let name = crate::spec::name_problem(d.name) is Some;
            let image = forall|i: int|
                0 <= i < d.image.len() ==> crate::spec::white_space(#[trigger] d.image[i]);
            let cpu = d.resources.cpu_cores < 1;
            let mem = d.resources.mem_mb < 1;
            let bid = d.bid.base < 0;
            let stuck = !can_progress(d.strategy);
            &&& name ==> p == crate::spec::name_problem(d.name)
            &&& p == Some(SpecProblem::EmptyImage(d.name)) <==> !name && image
            &&& p == Some(SpecProblem::ZeroCpu(d.name)) <==> !name && !image && cpu
            &&& p == Some(SpecProblem::ZeroMemory(d.name)) <==> !name && !image && !cpu && mem
            &&& p == Some(SpecProblem::NegativeBid(d.name)) <==> !name && !image && !cpu && !mem
                && bid
            &&& p == Some(SpecProblem::StuckRollingUpdate(d.name)) <==> !name && !image && !cpu
                && !mem && !bid && stuck
        }),
{
    which_problem_a_name_has(d.name);
}

/// A refused manifest is refused for what is wrong with it: what the parser said where it does not
/// parse, and the problem of the spec where it does.
pub proof fn refused_manifests_say_why(
    d: DeploymentModel,
    said: Seq<char>,
)
    ensures
        crate::spec::manifest_outcome(Err(said)) == Err::<DeploymentModel, SpecProblem>(
            SpecProblem::Manifest(said),
        ),
        forall|p: SpecProblem| #[trigger]
            crate::spec::spec_problem(d) == Some(p) ==> crate::spec::manifest_outcome(Ok(d)) == Err::<
                DeploymentModel,
                SpecProblem,
            >(p),
        crate::spec::spec_problem(d) is None ==> crate::spec::manifest_outcome(Ok(d)) == Ok::<
            DeploymentModel,
            SpecProblem,
        >(d),
{
}

/// What is said of each problem names the deployment, or carries what the parser said, in one
/// wording for all names.
pub proof fn every_problem_has_one_wording()
    ensures
        crate::text_laws::one_wording(
            |n: Seq<char>| crate::spec::problem_text(SpecProblem::NameLength(n)),
        ),
        crate::text_laws::one_wording(
            |n: Seq<char>| crate::spec::problem_text(SpecProblem::NameHyphen(n)),
        ),
        crate::text_laws::one_wording(
            |n: Seq<char>| crate::spec::problem_text(SpecProblem::NameCharacter(n)),
        ),
        crate::text_laws::one_wording(
            |n: Seq<char>| crate::spec::problem_text(SpecProblem::EmptyImage(n)),
        ),
        crate::text_laws::one_wording(
            |n: Seq<char>| crate::spec::problem_text(SpecProblem::ZeroCpu(n)),
        ),
        crate::text_laws::one_wording(
            |n: Seq<char>| crate::spec::problem_text(SpecProblem::ZeroMemory(n)),
        ),
        crate::text_laws::one_wording(
            |n: Seq<char>| crate::spec::problem_text(SpecProblem::NegativeBid(n)),
        ),
        crate::text_laws::one_wording(
            |n: Seq<char>| crate::spec::problem_text(SpecProblem::StuckRollingUpdate(n)),
        ),
        crate::text_laws::one_wording(
            |n: Seq<char>| crate::spec::problem_text(SpecProblem::Manifest(n)),
        ),
{
    assert(crate::text_laws::says(
        |n: Seq<char>| crate::spec::problem_text(SpecProblem::NameLength(n)),
        "name '"@,
        "' must be 1-63 characters"@,
    ));
    assert(crate::text_laws::says(
        |n: Seq<char>| crate::spec::problem_text(SpecProblem::NameHyphen(n)),
        "name '"@,
        "' must not start or end with a hyphen"@,
    ));
    assert(crate::text_laws::says(
        |n: Seq<char>| crate::spec::problem_text(SpecProblem::NameCharacter(n)),
        "name '"@,
        "' may only contain lowercase letters, digits, and hyphens"@,
    ));
    assert(crate::text_laws::says(
        |n: Seq<char>| crate::spec::problem_text(SpecProblem::EmptyImage(n)),
        "deployment '"@,
        "': image must not be empty"@,
    ));
    assert(crate::text_laws::says(
        |n: Seq<char>| crate::spec::problem_text(SpecProblem::ZeroCpu(n)),
        "deployment '"@,
        "': cpu_cores must be >= 1"@,
    ));
    assert(crate::text_laws::says(
        |n: Seq<char>| crate::spec::problem_text(SpecProblem::ZeroMemory(n)),
        "deployment '"@,
        "': mem_mb must be >= 1"@,
    ));
    assert(crate::text_laws::says(
        |n: Seq<char>| crate::spec::problem_text(SpecProblem::NegativeBid(n)),
        "deployment '"@,
        "': bid must not be negative"@,
    ));
    assert(crate::text_laws::says(
        |n: Seq<char>| crate::spec::problem_text(SpecProblem::StuckRollingUpdate(n)),
        "deployment '"@,
        "': rolling update needs max_unavailable>0 or max_surge>0 (else it can never progress)"@,
    ));
    assert forall|n: Seq<char>|
        crate::spec::problem_text(SpecProblem::Manifest(n)) == "manifest is not valid YAML/JSON: "@
            + n + Seq::<char>::empty() by {
        assert("manifest is not valid YAML/JSON: "@ + n + Seq::<char>::empty()
            =~= "manifest is not valid YAML/JSON: "@ + n);
    }
    assert(crate::text_laws::says(
        |n: Seq<char>| crate::spec::problem_text(SpecProblem::Manifest(n)),
        "manifest is not valid YAML/JSON: "@,
        Seq::<char>::empty(),
    ));
}

/// A revision shows the first eight bytes of the digest, and no others, in hexadecimal.
pub proof fn labels_show_eight_bytes(digest: Seq<u8>, i: int)
    requires
        digest.len() >= 8,
        0 <= i < 8,
    ensures
        crate::spec::label(digest).len() == 16,
        16 * crate::text_laws::hex_value(crate::spec::label(digest)[2 * i])
            + crate::text_laws::hex_value(crate::spec::label(digest)[2 * i + 1]) == digest[i],
        0 <= crate::text_laws::hex_value(crate::spec::label(digest)[2 * i]) < 16,
        0 <= crate::text_laws::hex_value(crate::spec::label(digest)[2 * i + 1]) < 16,
{
    crate::text_laws::hex_reads_back(digest.take(8), i);
}

/// The hashed bytes begin with the image and a NUL byte, and end with the numbers: the cores in
/// four bytes, the memory in eight, the bid in sixteen and the duration in eight, each least
/// significant byte first.
pub proof fn the_template_begins_and_ends(d: DeploymentModel, i: nat)
    ensures
        ({
            let t = crate::spec::template(d);
            let x = encode_utf8(d.image);
            let n = t.len() - 36;
            &&& n >= x.len() + 1
            &&& t.take(x.len() as int) == x
            &&& t[x.len() as int] == 0
            &&& i < 4 ==> t[n + i] as int == (d.resources.cpu_cores as int
                / vstd::arithmetic::power::pow(256, i)) % 256
            &&& i < 8 ==> t[n + 4 + i] as int == (d.resources.mem_mb as int
                / vstd::arithmetic::power::pow(256, i)) % 256
            &&& i < 16 ==> t[n + 12 + i] as int == (crate::bytes::twos_complement(d.bid.base) as int
                / vstd::arithmetic::power::pow(256, i)) % 256
            &&& i < 8 ==> t[n + 28 + i] as int == (d.duration_secs as int
                / vstd::arithmetic::power::pow(256, i)) % 256
        }),
{
    let t = crate::spec::template(d);
    let x = encode_utf8(d.image);
    let c = crate::spec::command_bytes(d.command);
    let n = t.len() - 36;
    let cpu = crate::bytes::le_bytes(d.resources.cpu_cores as nat, 4);
    let mem = crate::bytes::le_bytes(d.resources.mem_mb as nat, 8);
    let bid = crate::bytes::le_bytes(crate::bytes::twos_complement(d.bid.base), 16);
    let secs = crate::bytes::le_bytes(d.duration_secs as nat, 8);
    template_length(d);
    crate::bytes::le_bytes_is_injective(d.resources.cpu_cores as nat, 0, 4);
    crate::bytes::le_bytes_is_injective(d.resources.mem_mb as nat, 0, 8);
    crate::bytes::le_bytes_is_injective(crate::bytes::twos_complement(d.bid.base), 0, 16);
    crate::bytes::le_bytes_is_injective(d.duration_secs as nat, 0, 8);
    assert(t.take(x.len() as int) =~= x);
    assert(t == x.push(0) + c + (cpu + mem + bid + secs));
    if i < 4 {
        crate::text_laws::little_endian_digits(d.resources.cpu_cores as nat, 4, i);
        assert(t[n + i] == cpu[i as int]);
    }
    if i < 8 {
        crate::text_laws::little_endian_digits(d.resources.mem_mb as nat, 8, i);
        crate::text_laws::little_endian_digits(d.duration_secs as nat, 8, i);
        assert(t[n + 4 + i] == mem[i as int]);
        assert(t[n + 28 + i] == secs[i as int]);
    }
    if i < 16 {
        crate::text_laws::little_endian_digits(crate::bytes::twos_complement(d.bid.base), 16, i);
        assert(t[n + 12 + i] == bid[i as int]);
    }
}

/// One more word of the command adds its bytes and a NUL byte to what is hashed, after the words so
/// far and before the numbers; and no word at all adds nothing.
pub proof fn a_word_adds_its_bytes(d: DeploymentModel, word: Seq<char>)
    ensures
        ({
            let t = crate::spec::template(d);
            let n = t.len() - 36;
            let more = DeploymentModel { command: d.command.push(word), ..d };
            &&& crate::spec::template(more) == t.take(n) + encode_utf8(word).push(0) + t.skip(n)
            &&& d.command.len() == 0 ==> n == encode_utf8(d.image).len() + 1
        }),
{
    let t = crate::spec::template(d);
    let n = t.len() - 36;
    let more = DeploymentModel { command: d.command.push(word), ..d };
    template_length(d);
    assert(more.command.drop_last() =~= d.command);
    assert(crate::spec::number_bytes(more) == crate::spec::number_bytes(d));
    assert(crate::spec::template(more) =~= t.take(n) + encode_utf8(word).push(0) + t.skip(n));
}

/// Tags are listed in order of first mention: one more selected tag is added at the end, if it was
/// not listed, and what was listed stays where it is.
pub proof fn tags_keep_their_places(select: Seq<Seq<char>>, tag: Seq<char>)
    ensures
        ({
            let was = crate::spec::tags_for(select);
            let now = crate::spec::tags_for(select.push(tag));
            &&& now.len() >= was.len()
            &&& now.take(was.len() as int) == was
            &&& now.len() == was.len() <==> was.contains(tag)
            &&& now.len() > was.len() ==> now == was.push(tag)
        }),
{
    assert(select.push(tag).drop_last() =~= select);
    assert(crate::spec::tags_for(select).take(crate::spec::tags_for(select).len() as int)
        =~= crate::spec::tags_for(select));
}

/// A spec of which only the name and the image are said is valid where these are, and asks for no
/// replica, no command, no tag and no credit.
pub proof fn a_spec_with_a_name_and_an_image_is_valid(name: Seq<char>, image: Seq<char>)
    requires
        crate::spec::name_problem(name) is None,
        !crate::spec::blank(image),
    ensures
        ({
            let d = DeploymentModel { name, image, ..crate::spec::blank_deployment() };
            &&& crate::spec::spec_problem(d) is None
            &&& d.replicas == 0 && d.command.len() == 0 && d.select.len() == 0 && d.bid.base == 0
        }),
{
}

/// A parser's answer is taken as it is given: the deployment, or what was said; and so is what was
/// made of a manifest.
pub proof fn answers_are_taken_as_given(d: Deployment, said: String, e: SpecError)
    ensures
        crate::spec::parsed_model(Ok(d)) == Ok::<DeploymentModel, Seq<char>>(d@),
        crate::spec::parsed_model(Err(said)) == Err::<DeploymentModel, Seq<char>>(said@),
        crate::spec::outcome_model(Ok(d)) == Ok::<DeploymentModel, SpecProblem>(d@),
        crate::spec::outcome_model(Err(e)) == Err::<DeploymentModel, SpecProblem>(e@),
        d@.name == d.name@ && d@.image == d.image@ && d@.replicas == d.replicas,
        d@.command.len() == d.command@.len() && d@.select.len() == d.select@.len(),
        d@.resources == d.resources && d@.bid == d.bid && d@.duration_secs == d.duration_secs
            && d@.strategy == d.strategy,
{
}

} // verus!
