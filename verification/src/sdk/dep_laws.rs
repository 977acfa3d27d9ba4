//! What holds of dependency declarations as a whole.

use vstd::prelude::*;

use super::dep::{DepModel, PlaceModel};

verus! {

/// Declarations in which every count is at least one.
pub open spec fn counts_positive(d: DepModel) -> bool {
    d.replicas >= 1 && d.cpu_cores >= 1 && d.mem_mb >= 1 && d.duration_secs >= 1 && d.lease_ttl_secs
        >= 1
}

/// Every declaration that the builders can make asks for at least one of everything it counts: a
/// new one does, and each step keeps it so, whatever number it is given.
pub proof fn builders_keep_counts_positive(d: DepModel, name: Seq<char>, n: u32, m: u32, secs: u64)
    requires
        counts_positive(d),
    ensures
        counts_positive(super::dep::plain_dep(name)),
        counts_positive(DepModel { replicas: super::dep::at_least_one(n as nat) as u32, ..d }),
        counts_positive(
            DepModel {
                cpu_cores: super::dep::at_least_one(n as nat) as u32,
                mem_mb: super::dep::at_least_one(m as nat) as u32,
                ..d
            },
        ),
        counts_positive(DepModel { duration_secs: super::dep::at_least_one(secs as nat) as u64, ..d }),
        counts_positive(DepModel { singleton: true, replicas: 1, ..d }),
        counts_positive(
            DepModel { lease_ttl_secs: super::dep::at_least_one(secs as nat) as u64, ..d },
        ),
{
}

/// Texts without a slash.
pub open spec fn slash_free(s: Seq<char>) -> bool {
    forall|i: int| 0 <= i < s.len() ==> #[trigger] s[i] != '/'
}

/// A service name tells dependencies apart: where no namespace holds a slash, equal service names
/// come from equal namespaces and equal names.
pub proof fn service_names_are_distinct(a: DepModel, b: DepModel)
    requires
        slash_free(a.namespace),
        slash_free(b.namespace),
        super::dep::service_name(a) == super::dep::service_name(b),
    ensures
        a.namespace == b.namespace,
        a.name == b.name,
{
    reveal_strlit("/");
    let s = super::dep::service_name(a);
    let k = "ce-gke/"@.len() as int;
    let x = a.namespace;
    let y = b.namespace;
    assert(s == "ce-gke/"@ + y + "/"@ + b.name);
    assert(s[k + x.len()] == '/');
    assert(s[k + y.len()] == '/');
    if x.len() < y.len() {
        assert(s[k + x.len()] == y[x.len() as int]);
    } else if y.len() < x.len() {
        assert(s[k + y.len()] == x[y.len() as int]);
    }
    assert(x =~= s.subrange(k, k + x.len()));
    assert(y =~= s.subrange(k, k + y.len()));
    assert(a.name =~= s.skip(k + x.len() + 1));
    assert(b.name =~= s.skip(k + y.len() + 1));
}

/// A count is kept as it is given, but for zero, which counts as one.
pub proof fn only_zero_is_raised(n: nat)
    ensures
        super::dep::at_least_one(0) == 1,
        n > 0 ==> super::dep::at_least_one(n) == n,
{
}

/// A new dependency says its name and nothing else: two new ones differ in their names alone.
pub proof fn a_new_dependency_says_only_its_name(a: Seq<char>, b: Seq<char>)
    ensures
        super::dep::plain_dep(a).name == a,
        (DepModel { name: b, ..super::dep::plain_dep(a) }) == super::dep::plain_dep(b),
        !super::dep::plain_dep(a).singleton,
        super::dep::plain_dep(a).place is Auto,
        super::dep::plain_dep(a).health_port is None,
        super::dep::plain_dep(a).cmd.len() == 0,
{
}

/// Whether every service name is the namespace and the name, in that order, between fixed words.
pub open spec fn names_services(a: Seq<char>, b: Seq<char>) -> bool {
    forall|d: DepModel| #[trigger] super::dep::service_name(d) == a + d.namespace + b + d.name
}

/// Services are named by the namespace and the name alone, in one way for all dependencies.
pub proof fn services_are_named_in_one_way()
    ensures
        exists|a: Seq<char>, b: Seq<char>| #[trigger] names_services(a, b),
{
    assert(names_services("ce-gke/"@, "/"@));
}

/// The quoted words of a command, one after the other, with a comma and a space between two.
pub open spec fn listing(words: Seq<Seq<char>>) -> Seq<char>
    decreases words.len(),
{
    if words.len() == 0 {
        Seq::empty()
    } else {
        super::dep::debug_text(words[0]) + tail_of_listing(words.drop_first())
    }
}

/// The quoted words of a command that come after another.
pub open spec fn tail_of_listing(words: Seq<Seq<char>>) -> Seq<char>
    decreases words.len(),
{
    if words.len() == 0 {
        Seq::empty()
    } else {
        ", "@ + super::dep::debug_text(words[0]) + tail_of_listing(words.drop_first())
    }
}

proof fn lemma_tail_push(words: Seq<Seq<char>>, last: Seq<char>)
    ensures
        tail_of_listing(words.push(last)) == tail_of_listing(words) + ", "@
            + super::dep::debug_text(last),
    decreases words.len(),
{
    let more = words.push(last);
    if words.len() == 0 {
        assert(more.drop_first() =~= Seq::<Seq<char>>::empty());
        assert(tail_of_listing(more.drop_first()) == Seq::<char>::empty());
        assert(tail_of_listing(more) =~= tail_of_listing(words) + ", "@ + super::dep::debug_text(
            last,
        ));
    } else {
        lemma_tail_push(words.drop_first(), last);
        assert(more.drop_first() =~= words.drop_first().push(last));
        assert(tail_of_listing(more) =~= tail_of_listing(words) + ", "@ + super::dep::debug_text(
            last,
        ));
    }
}

proof fn lemma_quoted_words(words: Seq<Seq<char>>)
    ensures
        super::dep::quoted_words(words) == listing(words),
    decreases words.len(),
{
    if words.len() == 1 {
        assert(words.drop_first() =~= Seq::<Seq<char>>::empty());
        assert(tail_of_listing(words.drop_first()) == Seq::<char>::empty());
        assert(listing(words) =~= super::dep::debug_text(words[0]));
    } else if words.len() > 1 {
        let front = words.drop_last();
        lemma_quoted_words(front);
        assert(words.drop_first() =~= front.drop_first().push(words.last()));
        lemma_tail_push(front.drop_first(), words.last());
        assert(front[0] == words[0]);
        assert(listing(words) =~= listing(front) + ", "@ + super::dep::debug_text(words.last()));
    }
}

/// Whether every manifest says the fields of its dependency, each after fixed words: the name, the
/// namespace and the image; a line with every word of the command if and only if there is one; the
/// counts and the duration; a line with the tag if and only if the placement is by tag; and the
/// port if and only if there is a probe.
pub open spec fn writes_manifests(
    name: Seq<char>,
    namespace: Seq<char>,
    image: Seq<char>,
    command: Seq<char>,
    replicas: Seq<char>,
    cpu: Seq<char>,
    mem: Seq<char>,
    secs: Seq<char>,
    bid: Seq<char>,
    select: Seq<char>,
    port: Seq<char>,
) -> bool {
    forall|d: DepModel| #[trigger]
        super::dep::manifest(d) == name + d.name + namespace + d.namespace + image + d.image + "\n"@
            + (if d.cmd.len() > 0 {
            command + listing(d.cmd) + "]\n"@
        } else {
            Seq::empty()
        }) + replicas + crate::text::decimal(d.replicas as nat) + cpu + crate::text::decimal(
            d.cpu_cores as nat,
        ) + mem + crate::text::decimal(d.mem_mb as nat) + secs + crate::text::decimal(
            d.duration_secs as nat,
        ) + bid + (if d.place is Tag {
            select + d.place->Tag_0 + "]\n"@
        } else {
            Seq::empty()
        }) + (if d.health_port is Some {
            port + crate::text::decimal(d.health_port->Some_0 as nat) + "\n"@
        } else {
            Seq::empty()
        })
}

/// A manifest says everything that is asked of the mesh, in one way for all dependencies.
pub proof fn manifests_are_written_in_one_way()
    ensures
        exists|
            name: Seq<char>,
            namespace: Seq<char>,
            image: Seq<char>,
            command: Seq<char>,
            replicas: Seq<char>,
            cpu: Seq<char>,
            mem: Seq<char>,
            secs: Seq<char>,
            bid: Seq<char>,
            select: Seq<char>,
            port: Seq<char>,
        | #[trigger]
            writes_manifests(
                name,
                namespace,
                image,
                command,
                replicas,
                cpu,
                mem,
                secs,
                bid,
                select,
                port,
            ),
{
    assert forall|d: DepModel| #[trigger] super::dep::command_line(d.cmd) == if d.cmd.len() > 0 {
        "command: ["@ + listing(d.cmd) + "]\n"@
    } else {
        Seq::empty()
    } by {
        lemma_quoted_words(d.cmd);
    }
    assert(writes_manifests(
        "name: "@,
        "\nnamespace: "@,
        "\nimage: "@,
        "command: ["@,
        "replicas: "@,
        "\nresources:\n  cpu_cores: "@,
        "\n  mem_mb: "@,
        "\nduration_secs: "@,
        "\nbid: \"1000000000000000000\"\n"@,
        "select: ["@,
        "readiness:\n  type: tcp\n  port: "@,
    ));
}

/// Whether `part` stands in `text`.
pub open spec fn stands_in(part: Seq<char>, text: Seq<char>) -> bool {
    exists|i: int|
        0 <= i <= text.len() - part.len() && #[trigger] text.subrange(i, i + part.len()) == part
}

/// The manifest of a dependency with a command, of one word as of many, has a line that lists
/// every word, quoted and in order.
pub proof fn every_word_of_a_command_is_listed(d: DepModel)
    requires
        d.cmd.len() > 0,
    ensures
        stands_in("\ncommand: ["@ + listing(d.cmd) + "]\n"@, super::dep::manifest(d)),
{
    lemma_quoted_words(d.cmd);
    reveal_strlit("\n");
    reveal_strlit("command: [");
    reveal_strlit("\ncommand: [");
    let head = "name: "@ + d.name + "\nnamespace: "@ + d.namespace + "\nimage: "@ + d.image;
    let part = "\ncommand: ["@ + listing(d.cmd) + "]\n"@;
    let m = super::dep::manifest(d);
    let tail = "replicas: "@ + crate::text::decimal(d.replicas as nat)
        + "\nresources:\n  cpu_cores: "@ + crate::text::decimal(d.cpu_cores as nat)
        + "\n  mem_mb: "@ + crate::text::decimal(d.mem_mb as nat) + "\nduration_secs: "@
        + crate::text::decimal(d.duration_secs as nat) + "\nbid: \"1000000000000000000\"\n"@
        + super::dep::select_line(d.place) + super::dep::readiness_lines(d.health_port);
    assert("\ncommand: ["@ =~= "\n"@ + "command: ["@);
    assert(part =~= "\n"@ + super::dep::command_line(d.cmd));
    assert(m =~= head + part + tail);
    let i = head.len() as int;
    assert(m.subrange(i, i + part.len()) =~= part);
}

/// Whether quoting tells texts apart, even where more follows: no quoted text starts like another.
pub open spec fn quoting_is_clear() -> bool {
    forall|a: Seq<char>, b: Seq<char>, x: Seq<char>, y: Seq<char>|
        #![trigger super::dep::debug_text(a) + x, super::dep::debug_text(b) + y]
        super::dep::debug_text(a) + x == super::dep::debug_text(b) + y ==> a == b && x == y
}

proof fn lemma_tails_apart(a: Seq<Seq<char>>, b: Seq<Seq<char>>)
    requires
        quoting_is_clear(),
        tail_of_listing(a) == tail_of_listing(b),
    ensures
        a == b,
    decreases a.len(),
{
    reveal_strlit(", ");
    if a.len() > 0 && b.len() > 0 {
        let t = tail_of_listing(a);
        let x = tail_of_listing(a.drop_first());
        let y = tail_of_listing(b.drop_first());
        assert(t.skip(2) =~= super::dep::debug_text(a[0]) + x);
        assert(t.skip(2) =~= super::dep::debug_text(b[0]) + y);
        lemma_tails_apart(a.drop_first(), b.drop_first());
        assert(a =~= seq![a[0]] + a.drop_first());
        assert(b =~= seq![b[0]] + b.drop_first());
    } else if a.len() > 0 {
        assert(tail_of_listing(a).len() >= 2);
    } else if b.len() > 0 {
        assert(tail_of_listing(b).len() >= 2);
    } else {
        assert(a =~= b);
    }
}

/// Where quoting tells texts apart, equal manifests of dependencies alike but for the command come
/// from equal commands: no word is lost, added or moved.
pub proof fn manifests_tell_commands_apart(a: DepModel, b: DepModel)
    requires
        quoting_is_clear(),
        b == (DepModel { cmd: b.cmd, ..a }),
        super::dep::manifest(a) == super::dep::manifest(b),
    ensures
        a.cmd == b.cmd,
{
    lemma_quoted_words(a.cmd);
    lemma_quoted_words(b.cmd);
    let head = "name: "@ + a.name + "\nnamespace: "@ + a.namespace + "\nimage: "@ + a.image
        + "\n"@;
    let tail = "replicas: "@ + crate::text::decimal(a.replicas as nat)
        + "\nresources:\n  cpu_cores: "@ + crate::text::decimal(a.cpu_cores as nat)
        + "\n  mem_mb: "@ + crate::text::decimal(a.mem_mb as nat) + "\nduration_secs: "@
        + crate::text::decimal(a.duration_secs as nat) + "\nbid: \"1000000000000000000\"\n"@
        + super::dep::select_line(a.place) + super::dep::readiness_lines(a.health_port);
    let x = super::dep::command_line(a.cmd);
    let y = super::dep::command_line(b.cmd);
    let m = super::dep::manifest(a);
    assert(m =~= head + x + tail);
    assert(m =~= head + y + tail);
    assert(x.len() == y.len());
    assert(x =~= m.subrange(head.len() as int, (head.len() + x.len()) as int));
    assert(y =~= m.subrange(head.len() as int, (head.len() + y.len()) as int));
    reveal_strlit("command: [");
    reveal_strlit("]\n");
    if a.cmd.len() > 0 && b.cmd.len() > 0 {
        let p = listing(a.cmd);
        let q = listing(b.cmd);
        assert(p =~= x.subrange(10, x.len() - 2));
        assert(q =~= y.subrange(10, y.len() - 2));
        assert(p == super::dep::debug_text(a.cmd[0]) + tail_of_listing(a.cmd.drop_first()));
        assert(q == super::dep::debug_text(b.cmd[0]) + tail_of_listing(b.cmd.drop_first()));
        lemma_tails_apart(a.cmd.drop_first(), b.cmd.drop_first());
        assert(a.cmd =~= seq![a.cmd[0]] + a.cmd.drop_first());
        assert(b.cmd =~= seq![b.cmd[0]] + b.cmd.drop_first());
    } else {
        assert(a.cmd =~= b.cmd);
    }
}

/// The manifest has a line for the tag if and only if the placement is by tag, and lines for the
/// probe if and only if there is one: a placement by node is written like one left open, a tag adds
/// to it, and so does a port.
pub proof fn tags_and_probes_add_to_the_manifest(d: DepModel, tag: Seq<char>, node: Seq<char>, port: u16)
    ensures
        ({
            let open = super::dep::manifest(DepModel { place: PlaceModel::Auto, ..d });
            let bare = super::dep::manifest(
                DepModel { place: PlaceModel::Auto, health_port: None, ..d },
            );
            let tagged = super::dep::manifest(
                DepModel { place: PlaceModel::Tag(tag), health_port: None, ..d },
            );
            let probed = super::dep::manifest(
                DepModel { place: PlaceModel::Auto, health_port: Some(port), ..d },
            );
            let both = super::dep::manifest(
                DepModel { place: PlaceModel::Tag(tag), health_port: Some(port), ..d },
            );
            &&& super::dep::manifest(DepModel { place: PlaceModel::Node(node), ..d }) == open
            &&& tagged == bare + "select: ["@ + tag + "]\n"@
            &&& bare.len() < probed.len() && probed.take(bare.len() as int) == bare
            &&& stands_in(crate::text::decimal(port as nat), probed.skip(bare.len() as int))
            &&& both == tagged + probed.skip(bare.len() as int)
        }),
{
    let bare = super::dep::manifest(DepModel { place: PlaceModel::Auto, health_port: None, ..d });
    let tagged = super::dep::manifest(
        DepModel { place: PlaceModel::Tag(tag), health_port: None, ..d },
    );
    let probed = super::dep::manifest(
        DepModel { place: PlaceModel::Auto, health_port: Some(port), ..d },
    );
    let both = super::dep::manifest(
        DepModel { place: PlaceModel::Tag(tag), health_port: Some(port), ..d },
    );
    let lines = super::dep::readiness_lines(Some(port));
    assert(probed =~= bare + lines);
    assert(probed.take(bare.len() as int) =~= bare);
    assert(probed.skip(bare.len() as int) =~= lines);
    assert(tagged =~= bare + "select: ["@ + tag + "]\n"@);
    assert(both =~= tagged + lines);
    reveal_strlit("\n");
    let words = "readiness:\n  type: tcp\n  port: "@;
    let number = crate::text::decimal(port as nat);
    assert(lines == words + number + "\n"@);
    assert(lines.subrange(words.len() as int, (words.len() + number.len()) as int) =~= number);
}

} // verus!
