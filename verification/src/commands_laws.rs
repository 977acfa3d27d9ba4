//! What the commands keep over several steps.

use vstd::prelude::*;
use vstd::utf8::*;

use crate::commands::{ConvergenceModel, Deletion, TickReport};
use crate::reconcile::{Phase, ReplicaModel};
use crate::spec::DeploymentModel;
use crate::state::ManagedModel;

verus! {

/// Where a run of ticks leads: each leaves replicas behind and reports; no tick is run once
/// the deployment has converged or the budget is spent.
pub open spec fn after_ticks(
    c: ConvergenceModel,
    ticks: Seq<(Seq<ReplicaModel>, TickReport)>,
) -> ConvergenceModel
    decreases ticks.len(),
{
    if ticks.len() == 0 || !crate::commands::ticking(c) {
        c
    } else {
        after_ticks(crate::commands::ticked(c, ticks[0].0, ticks[0].1), ticks.skip(1))
    }
}

/// A command ends: whatever the ticks report, none is run beyond the budget.
pub proof fn the_tick_budget_is_kept(
    c: ConvergenceModel,
    ticks: Seq<(Seq<ReplicaModel>, TickReport)>,
)
    requires
        c.tick <= c.max_ticks,
    ensures
        after_ticks(c, ticks).tick <= c.max_ticks,
        ticks.len() >= c.max_ticks - c.tick ==> !crate::commands::ticking(after_ticks(c, ticks)),
    decreases ticks.len(),
{
    if ticks.len() > 0 && crate::commands::ticking(c) {
        the_tick_budget_is_kept(
            crate::commands::ticked(c, ticks[0].0, ticks[0].1),
            ticks.skip(1),
        );
    }
}

/// A deployment is called converged if and only if a tick within the budget reported it done.
pub proof fn converged_means_that_a_tick_was_done(
    c: ConvergenceModel,
    ticks: Seq<(Seq<ReplicaModel>, TickReport)>,
)
    requires
        c.tick <= c.max_ticks,
        !c.converged,
    ensures
        after_ticks(c, ticks).converged <==> exists|i: int|
            0 <= i < ticks.len() && i < c.max_ticks - c.tick && (#[trigger] ticks[i]).1.done,
    decreases ticks.len(),
{
    if ticks.len() > 0 && crate::commands::ticking(c) {
        let next = crate::commands::ticked(c, ticks[0].0, ticks[0].1);
        let rest = ticks.skip(1);
        if ticks[0].1.done {
            assert(after_ticks(next, rest) == next);
        } else {
            converged_means_that_a_tick_was_done(next, rest);
            if after_ticks(next, rest).converged {
                let i = choose|i: int|
                    0 <= i < rest.len() && i < next.max_ticks - next.tick && (
                    #[trigger] rest[i]).1.done;
                assert(ticks[i + 1] == rest[i]);
            }
            if exists|i: int|
                0 <= i < ticks.len() && i < c.max_ticks - c.tick && (#[trigger] ticks[i]).1.done {
                let i = choose|i: int|
                    0 <= i < ticks.len() && i < c.max_ticks - c.tick && (
                    #[trigger] ticks[i]).1.done;
                assert(rest[i - 1] == ticks[i]);
            }
        }
    }
}

/// Ticks change neither what is driven nor how: the name, the spec, the grant, the budget and the
/// interval stay.
pub proof fn ticks_keep_the_goal(
    c: ConvergenceModel,
    ticks: Seq<(Seq<ReplicaModel>, TickReport)>,
)
    ensures
        after_ticks(c, ticks).name == c.name,
        after_ticks(c, ticks).spec == c.spec,
        after_ticks(c, ticks).grant == c.grant,
        after_ticks(c, ticks).max_ticks == c.max_ticks,
        after_ticks(c, ticks).interval == c.interval,
    decreases ticks.len(),
{
    if ticks.len() > 0 && crate::commands::ticking(c) {
        ticks_keep_the_goal(crate::commands::ticked(c, ticks[0].0, ticks[0].1), ticks.skip(1));
    }
}

/// Handles written back during a rollout are those of the last tick; the spec and the grant of the
/// deployment and every other deployment stay as they are.
pub proof fn only_handles_are_written_back(
    store: Map<Seq<char>, ManagedModel>,
    name: Seq<char>,
    first: Seq<ReplicaModel>,
    last: Seq<ReplicaModel>,
)
    ensures
        crate::commands::with_handles(
            crate::commands::with_handles(store, name, first),
            name,
            last,
        ) == crate::commands::with_handles(store, name, last),
        crate::commands::with_handles(store, name, last).dom() == store.dom(),
        store.contains_key(name) ==> ({
            let m = crate::commands::with_handles(store, name, last)[name];
            m.replicas == last && m.spec == store[name].spec && m.grant == store[name].grant
        }),
        forall|other: Seq<char>|
            other != name && store.contains_key(other) ==> #[trigger] crate::commands::with_handles(
                store,
                name,
                last,
            )[other] == store[other],
{
    assert(crate::commands::with_handles(
        crate::commands::with_handles(store, name, first),
        name,
        last,
    ) =~= crate::commands::with_handles(store, name, last));
    assert(crate::commands::with_handles(store, name, last).dom() =~= store.dom());
}

/// Scaling is no rollout: the revision, the handles and the grant stay, and a valid spec stays
/// valid.
pub proof fn scaling_is_no_rollout(m: ManagedModel, replicas: u32)
    ensures
        crate::spec::label(
            crate::bytes::sha256(crate::spec::template(crate::commands::scaled(m, replicas).spec)),
        ) == crate::spec::label(crate::bytes::sha256(crate::spec::template(m.spec))),
        crate::spec::spec_problem(crate::commands::scaled(m, replicas).spec)
            == crate::spec::spec_problem(m.spec),
        crate::commands::scaled(m, replicas).replicas == m.replicas,
        crate::commands::scaled(m, replicas).grant == m.grant,
{
    let d: DeploymentModel = crate::commands::scaled(m, replicas).spec;
    crate::spec_laws::revision_depends_on_the_template_alone(m.spec, d);
    crate::spec_laws::validity_ignores_the_replica_count(m.spec, replicas);
}

/// To scale back undoes a scaling.
pub proof fn scaling_back_restores_the_deployment(m: ManagedModel, replicas: u32)
    ensures
        crate::commands::scaled(crate::commands::scaled(m, replicas), m.spec.replicas) == m,
{
}

/// The encoding of two texts, one after the other, is their encodings, one after the other.
proof fn lemma_encode_concat(a: Seq<char>, b: Seq<char>)
    ensures
        encode_utf8(a + b) == encode_utf8(a) + encode_utf8(b),
    decreases a.len(),
{
    if a.len() == 0 {
        assert(a + b =~= b);
        assert(encode_utf8(a) + encode_utf8(b) =~= encode_utf8(b));
    } else {
        assert((a + b).drop_first() =~= a.drop_first() + b);
        lemma_encode_concat(a.drop_first(), b);
        assert(encode_utf8(a + b) =~= encode_utf8(a) + encode_utf8(b));
    }
}

/// A text cut to `n` bytes has at most `n` bytes, or the three of the ellipsis where `n` is less,
/// and starts like the text that was cut.
pub proof fn truncated_texts_fit(s: Seq<char>, n: nat)
    requires
        crate::commands::can_truncate(s, n),
    ensures
        encode_utf8(crate::commands::truncated(s, n)).len() <= if n < 3 {
            3
        } else {
            n
        },
        encode_utf8(s).len() > n ==> encode_utf8(crate::commands::truncated(s, n)) == encode_utf8(
            s,
        ).take(crate::commands::cut_at(n) as int) + encode_utf8("..."@),
{
    let bytes = encode_utf8(s);
    if bytes.len() > n {
        let cut = crate::commands::cut_at(n) as int;
        let head = bytes.take(cut);
        reveal_strlit("...");
        is_ascii_chars_encode_utf8("..."@);
        encode_utf8_valid_utf8(s);
        valid_utf8_split(bytes, cut);
        assert(head =~= bytes.subrange(0, cut));
        decode_utf8_encode_utf8(head);
        lemma_encode_concat(decode_utf8(head), "..."@);
    }
}

/// An ASCII text can be cut anywhere, and is cut by characters.
pub proof fn ascii_texts_are_cut_by_characters(s: Seq<char>, n: nat)
    requires
        is_ascii_chars(s),
    ensures
        crate::commands::can_truncate(s, n),
        crate::commands::truncated(s, n) == if s.len() <= n {
            s
        } else {
            s.take(crate::commands::cut_at(n) as int) + "..."@
        },
{
    let bytes = encode_utf8(s);
    is_ascii_chars_encode_utf8(s);
    if s.len() > n {
        let cut = crate::commands::cut_at(n) as int;
        let head = s.take(cut);
        encode_utf8_valid_utf8(s);
        assert(s[cut] as u8 == bytes[cut]);
        assert(bytes[cut] < 0x80);
        is_char_boundary_iff_not_is_continuation_byte(bytes, cut);
        is_ascii_chars_encode_utf8(head);
        assert forall|i: int| 0 <= i < cut implies encode_utf8(head)[i] == bytes[i] by {
            assert(head[i] == s[i]);
        }
        assert(encode_utf8(head) =~= bytes.take(cut));
        encode_utf8_decode_utf8(head);
    }
}

/// The name of a valid deployment can be cut to any width: showing it never fails.
pub proof fn valid_names_can_be_shown(name: Seq<char>, width: nat)
    requires
        crate::spec::name_problem(name) is None,
    ensures
        crate::commands::can_truncate(name, width),
{
    assert forall|i: int| 0 <= i < name.len() implies '\0' <= #[trigger] name[i] <= '\u{7f}' by {
        assert(crate::spec::name_char(name[i]));
    }
    ascii_texts_are_cut_by_characters(name, width);
}

/// A name is shortened to its first twelve characters, and one that has no more stays whole.
pub proof fn shortened_texts_are_prefixes(s: Seq<char>)
    ensures
        ({
            let t = crate::commands::shortened(s);
            &&& s.len() <= 12 ==> t == s
            &&& s.len() > 12 ==> t.len() == 12
            &&& forall|i: int| 0 <= i < t.len() ==> #[trigger] t[i] == s[i]
        }),
{
}

/// When a text can be cut: where it fits, where nothing of it is kept, and where the third byte
/// before the end of the width starts a character. What fits stays whole; what does not fills the
/// width.
pub proof fn what_fits_stays_whole(s: Seq<char>, n: nat)
    ensures
        encode_utf8(s).len() <= n ==> crate::commands::can_truncate(s, n)
            && crate::commands::truncated(s, n) == s,
        n <= 3 ==> crate::commands::can_truncate(s, n),
        encode_utf8(s).len() > n && n > 3 ==> (crate::commands::can_truncate(s, n)
            <==> !is_continuation_byte(encode_utf8(s)[n - 3])),
        encode_utf8(s).len() > n && n >= 3 && crate::commands::can_truncate(s, n) ==> encode_utf8(
            crate::commands::truncated(s, n),
        ).len() == n,
        encode_utf8(s).len() > n && n < 3 ==> crate::commands::truncated(s, n) == "..."@,
{
    let bytes = encode_utf8(s);
    encode_utf8_valid_utf8(s);
    is_char_boundary_start_end_of_seq(bytes);
    if bytes.len() > n {
        reveal_strlit("...");
        is_ascii_chars_encode_utf8("..."@);
        if n > 3 {
            is_char_boundary_iff_not_is_continuation_byte(bytes, n - 3);
        }
        if crate::commands::can_truncate(s, n) {
            truncated_texts_fit(s, n);
        }
        if n < 3 {
            assert(bytes.take(0) =~= Seq::<u8>::empty());
            assert(crate::commands::truncated(s, n) =~= "..."@);
        }
    }
}

/// Whether failures are noted between fixed words, for every kind and every count but zero.
pub open spec fn notes_failures(a: Seq<char>, b: Seq<char>, c: Seq<char>) -> bool {
    forall|kind: Seq<char>, n: nat|
        n > 0 ==> #[trigger] crate::commands::failure_note(kind, n) == a + crate::text::decimal(n) + b
            + kind + c
}

/// Failures are noted with their count and their kind, in one wording for all, and nothing is said
/// if and only if there are none.
pub proof fn failures_are_noted(kind: Seq<char>, n: nat)
    ensures
        crate::commands::failure_note(kind, n).len() == 0 <==> n == 0,
        exists|a: Seq<char>, b: Seq<char>, c: Seq<char>| #[trigger] notes_failures(a, b, c),
{
    assert(notes_failures(", "@, " "@, " failure(s)"@));
    reveal_strlit(", ");
}

/// Whether `apply` names the deployment, its image and its count between fixed words.
pub open spec fn says_apply(a: Seq<char>, b: Seq<char>, c: Seq<char>, d: Seq<char>) -> bool {
    forall|x: DeploymentModel| #[trigger]
        crate::commands::apply_text(x) == a + x.name + b + x.image + c + crate::text::decimal(
            x.replicas as nat,
        ) + d
}

/// Whether `scale` names the deployment, the old count and the new one between fixed words.
pub open spec fn says_scale(a: Seq<char>, b: Seq<char>, c: Seq<char>, d: Seq<char>) -> bool {
    forall|name: Seq<char>, was: u32, now: u32| #[trigger]
        crate::commands::scale_text(name, was, now) == a + name + b + crate::text::decimal(
            was as nat,
        ) + c + crate::text::decimal(now as nat) + d
}

/// Whether an eventful tick is told by its number and what it did, between fixed words.
pub open spec fn says_tick(a: Seq<char>, b: Seq<char>, c: Seq<char>, d: Seq<char>) -> bool {
    forall|tick: u32, t: TickReport| #[trigger]
        crate::commands::tick_text(tick, t) == a + crate::text::decimal(tick as nat) + b
            + crate::text::decimal(t.placed as nat) + c + crate::text::decimal(t.killed as nat) + d
            + crate::commands::failure_note("place"@, t.place_failures as nat)
            + crate::commands::failure_note("kill"@, t.kill_failures as nat)
}

/// What the commands say is said in one wording for all deployments and all counts.
pub proof fn commands_speak_in_one_way()
    ensures
        exists|a: Seq<char>, b: Seq<char>, c: Seq<char>, d: Seq<char>| #[trigger]
            says_apply(a, b, c, d),
        exists|a: Seq<char>, b: Seq<char>, c: Seq<char>, d: Seq<char>| #[trigger]
            says_scale(a, b, c, d),
        exists|a: Seq<char>, b: Seq<char>, c: Seq<char>, d: Seq<char>| #[trigger]
            says_tick(a, b, c, d),
{
    assert(says_apply("Applying deployment '"@, "' (image "@, ", "@, " replica(s))"@));
    assert(says_scale("Scaling '"@, "': "@, " -> "@, " replica(s)"@));
    assert(says_tick("  tick "@, ": +"@, " placed, -"@, " killed"@));
}

/// After scaling the desired count is the one asked for, whatever it was and whatever is asked for,
/// zero included; and nothing else of the deployment changes.
pub proof fn scaling_sets_the_count(m: ManagedModel, replicas: u32)
    ensures
        ({
            let after = crate::commands::scaled(m, replicas);
            &&& after.spec.replicas == replicas
            &&& after.spec.name == m.spec.name
            &&& after.spec.image == m.spec.image
            &&& after.spec.command == m.spec.command
            &&& after.spec.resources == m.spec.resources
            &&& after.spec.select == m.spec.select
            &&& after.spec.bid == m.spec.bid
            &&& after.spec.duration_secs == m.spec.duration_secs
            &&& after.spec.strategy == m.spec.strategy
            &&& after.replicas == m.replicas
            &&& after.grant == m.grant
        }),
{
}

/// Of two scalings the later counts.
pub proof fn the_last_scaling_counts(m: ManagedModel, first: u32, last: u32)
    ensures
        crate::commands::scaled(crate::commands::scaled(m, first), last) == crate::commands::scaled(
            m,
            last,
        ),
        crate::commands::scaled(m, first) == crate::commands::scaled(m, last) <==> first == last,
{
    scaling_sets_the_count(m, first);
    scaling_sets_the_count(m, last);
}

/// The grant that a deployment has is the one forwarded, whatever is given on the command line,
/// none included; the one given is used if and only if the deployment has none.
pub proof fn a_deployments_own_grant_is_forwarded(own: Seq<char>, given: Option<Seq<char>>)
    ensures
        crate::commands::grant_to_use(Some(own), given) == Some(own),
        crate::commands::grant_to_use(None, given) == given,
{
}

/// A deletion still has to try the replicas from the first untried one on, each of them once and in
/// order; none is left if and only if all were tried.
pub proof fn untried_replicas_are_left(d: Deletion, i: int)
    requires
        d.wf(),
        0 <= i < d.replicas@.len() - d.tried,
    ensures
        d.left().len() == d.replicas@.len() - d.tried,
        d.left()[i] == d.replicas@[d.tried + i]@,
{
}

/// A tick is told of if it placed or killed anything, or failed to, and not otherwise.
pub proof fn quiet_ticks_are_passed_over(t: TickReport)
    ensures
        !crate::commands::eventful(t) <==> t.placed == 0 && t.killed == 0 && t.place_failures == 0
            && t.kill_failures == 0,
{
}

/// A tick leaves the replicas that it reports, counts for one, and ends the run if and only if the
/// deployment is done.
pub proof fn a_tick_leaves_what_it_reports(
    c: ConvergenceModel,
    replicas: Seq<ReplicaModel>,
    t: TickReport,
)
    requires
        crate::commands::ticking(c),
    ensures
        ({
            let next = crate::commands::ticked(c, replicas, t);
            &&& next.replicas == replicas
            &&& next.tick == c.tick + 1
            &&& next.converged == t.done
            &&& crate::commands::ticking(next) <==> !t.done && c.tick + 1 < c.max_ticks
        }),
{
}

/// Ticks are run one after the other as long as none is done and the budget lasts, and the replicas
/// at the end are those that the last of them left.
pub proof fn every_tick_in_the_budget_is_run(
    c: ConvergenceModel,
    ticks: Seq<(Seq<ReplicaModel>, TickReport)>,
)
    requires
        !c.converged,
        c.tick + ticks.len() <= c.max_ticks,
        forall|i: int| 0 <= i < ticks.len() - 1 ==> !(#[trigger] ticks[i]).1.done,
    ensures
        after_ticks(c, ticks).tick == c.tick + ticks.len(),
        ticks.len() > 0 ==> after_ticks(c, ticks).replicas == ticks.last().0,
        ticks.len() > 0 ==> after_ticks(c, ticks).converged == ticks.last().1.done,
        ticks.len() == 0 ==> after_ticks(c, ticks) == c,
    decreases ticks.len(),
{
    if ticks.len() > 0 {
        let next = crate::commands::ticked(c, ticks[0].0, ticks[0].1);
        let rest = ticks.skip(1);
        if ticks.len() == 1 {
            assert(after_ticks(next, rest) == next);
        } else {
            assert forall|i: int| 0 <= i < rest.len() - 1 implies !(#[trigger] rest[i]).1.done by {
                assert(rest[i] == ticks[i + 1]);
            }
            assert(!ticks[0].1.done);
            every_tick_in_the_budget_is_run(next, rest);
            assert(rest.last() == ticks.last());
        }
    }
}

/// Whether a converged deployment is told by its name and how many of its replicas run.
pub open spec fn says_converged(a: Seq<char>, b: Seq<char>, c: Seq<char>) -> bool {
    forall|m: ConvergenceModel|
        m.converged ==> #[trigger] crate::commands::summary_texts(m) == seq![
            a + m.name + b + crate::text::decimal(
                crate::reconcile::count_phase(m.replicas, Phase::Running),
            ) + c,
        ]
}

/// Whether any other is told by its name, the budget and how many of its replicas run, are pending
/// and are at their end, and how to go on.
pub open spec fn says_unfinished(
    a: Seq<char>,
    b: Seq<char>,
    c: Seq<char>,
    d: Seq<char>,
    e: Seq<char>,
    f: Seq<char>,
    g: Seq<char>,
    h: Seq<char>,
) -> bool {
    forall|m: ConvergenceModel|
        !m.converged ==> #[trigger] crate::commands::summary_texts(m) == seq![
            a + m.name + b + crate::text::decimal(m.max_ticks as nat) + c + crate::text::decimal(
                crate::reconcile::count_phase(m.replicas, Phase::Running),
            ) + d + crate::text::decimal(
                crate::reconcile::count_phase(m.replicas, Phase::Pending),
            ) + e + crate::text::decimal(
                crate::reconcile::count_phase(m.replicas, Phase::Failed)
                    + crate::reconcile::count_phase(m.replicas, Phase::Settled),
            ) + f,
            g + m.name + h,
        ]
}

/// How a run ended is said in one wording for all deployments.
pub proof fn the_end_is_told_in_one_way()
    ensures
        exists|a: Seq<char>, b: Seq<char>, c: Seq<char>| #[trigger] says_converged(a, b, c),
        exists|
            a: Seq<char>,
            b: Seq<char>,
            c: Seq<char>,
            d: Seq<char>,
            e: Seq<char>,
            f: Seq<char>,
            g: Seq<char>,
            h: Seq<char>,
        | #[trigger]
            says_unfinished(a, b, c, d, e, f, g, h),
{
    assert(says_converged("'"@, "' converged: "@, " running."@));
    assert(says_unfinished(
        "'"@,
        "' not fully converged within "@,
        " ticks: "@,
        " running, "@,
        " pending, "@,
        " terminal."@,
        "Re-run `ce-gke rollout "@,
        "` to continue."@,
    ));
}

/// One more replica is counted as running if the mesh says that it runs, or says nothing and it
/// ran when last seen; no replica counts for nothing.
pub proof fn each_running_replica_counts_once(
    replicas: Seq<ReplicaModel>,
    live: Seq<Option<Phase>>,
    r: ReplicaModel,
    said: Option<Phase>,
)
    requires
        replicas.len() == live.len(),
    ensures
        crate::commands::running_count(Seq::empty(), Seq::empty()) == 0,
        crate::commands::running_count(replicas.push(r), live.push(said))
            == crate::commands::running_count(replicas, live) + if said == Some(Phase::Running) || (
        said is None && r.phase == Phase::Running) {
            1nat
        } else {
            0nat
        },
{
    reveal(Seq::filter);
    let all = crate::commands::shown_phases(replicas.push(r), live.push(said));
    assert(all.drop_last() =~= crate::commands::shown_phases(replicas, live));
    assert(crate::commands::shown_phases(Seq::empty(), Seq::empty()) =~= Seq::<Phase>::empty());
}

/// The width of a cell: that of its column, or of the text where it is longer.
pub open spec fn wide(text: Seq<char>, column: int) -> int {
    if text.len() > column {
        text.len() as int
    } else {
        column
    }
}

/// Whether a line of the table shows five texts in columns 20, 24, 8, 9 and 16 characters wide, with
/// two spaces between columns, the third and the fourth to the right and the others to the left,
/// and nothing but spaces elsewhere.
pub open spec fn shows(
    line: Seq<char>,
    a: Seq<char>,
    b: Seq<char>,
    c: Seq<char>,
    d: Seq<char>,
    e: Seq<char>,
) -> bool {
    let pb = wide(a, 20) + 2;
    let pc = pb + wide(b, 24) + 2;
    let pd = pc + wide(c, 8) + 2;
    let pe = pd + wide(d, 9) + 2;
    let qc = pc + wide(c, 8) - c.len();
    let qd = pd + wide(d, 9) - d.len();
    &&& line.len() == pe + wide(e, 16)
    &&& forall|i: int| 0 <= i < a.len() ==> #[trigger] line[i] == a[i]
    &&& forall|i: int| pb <= i < pb + b.len() ==> #[trigger] line[i] == b[i - pb]
    &&& forall|i: int| qc <= i < qc + c.len() ==> #[trigger] line[i] == c[i - qc]
    &&& forall|i: int| qd <= i < qd + d.len() ==> #[trigger] line[i] == d[i - qd]
    &&& forall|i: int| pe <= i < pe + e.len() ==> #[trigger] line[i] == e[i - pe]
    &&& forall|i: int|
        (a.len() <= i < pb || pb + b.len() <= i < qc || qc + c.len() <= i < qd || qd + d.len() <= i
            < pe || pe + e.len() <= i < line.len()) ==> #[trigger] line[i] == ' '
}

/// A line of the table shows its five cells, and pads but never cuts them.
pub proof fn lines_show_their_cells(
    a: Seq<char>,
    b: Seq<char>,
    c: Seq<char>,
    d: Seq<char>,
    e: Seq<char>,
)
    ensures
        shows(crate::commands::columns(a, b, c, d, e), a, b, c, d, e),
{
    reveal_strlit("  ");
}

/// The line of a deployment shows its name and its image, cut to their columns, the desired count,
/// how many replicas run out of it, and the revision.
pub proof fn a_row_shows_the_deployment(
    name: Seq<char>,
    spec: DeploymentModel,
    running: nat,
    revision: Seq<char>,
)
    ensures
        shows(
            crate::commands::status_text(name, spec, running, revision),
            crate::commands::truncated(name, 20),
            crate::commands::truncated(spec.image, 24),
            crate::text::decimal(spec.replicas as nat),
            crate::text::decimal(running) + "/"@ + crate::text::decimal(spec.replicas as nat),
            revision,
        ),
{
    lines_show_their_cells(
        crate::commands::truncated(name, 20),
        crate::commands::truncated(spec.image, 24),
        crate::text::decimal(spec.replicas as nat),
        crate::text::decimal(running) + "/"@ + crate::text::decimal(spec.replicas as nat),
        revision,
    );
}

/// After a tick there is a pause if and only if the deployment is not done: of the interval asked
/// for, or of one second where that is none.
pub proof fn ticks_are_spaced(interval: u64, t: TickReport)
    ensures
        crate::commands::pause_after(interval, t) is None <==> t.done,
        crate::commands::pause_after(interval, t) matches Some(secs) ==> secs >= 1 && secs
            >= interval && (secs == interval || interval < 1 && secs < 2),
{
}

} // verus!
