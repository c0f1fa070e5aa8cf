//! What deploying a container on a node runs there, and in which order the
//! nodes are served.

use vstd::prelude::*;
use crate::utils::{parse_cmd_opt, parsed_cmd_opt};

verus! {

/// The text of an optional part of a command: nothing when it is absent.
pub open spec fn or_empty(part: Option<Seq<char>>) -> Seq<char> {
    match part {
        Some(text) => text,
        None => Seq::empty(),
    }
}

/// The configured value, or `default` when there is none.
pub open spec fn or_default(configured: Option<Seq<char>>, default: Seq<char>) -> Seq<char> {
    match configured {
        Some(value) => value,
        None => default,
    }
}

/// The name server given to containers when none is configured.
pub open spec fn default_dns() -> Seq<char> {
    "192.168.3.100"@
}

/// The `docker run` line that starts the container, then lists the
/// containers.
pub open spec fn run_line(
    image: Seq<char>,
    options: Option<Seq<char>>,
    command: Option<Seq<char>>,
    dns: Seq<char>,
) -> Seq<char> {
    "docker run --name container "@ + or_empty(options)
        + " -v /home/container/container_fs:/var -v /lib/modules:/lib/modules -v /var/run/dbus:/var/run/dbus -v /sys/fs/cgroup:/sys/fs/cgroup --network=host --privileged --cap-add=ALL --dns "@
        + dns + " "@ + image + " "@ + or_empty(command) + " && docker container ls -a"@
}

/// The shell lines run on a node to deploy `image` there: stop and remove
/// the running container, pull the image, run the new container.
pub open spec fn deploy_lines(
    image: Seq<char>,
    options: Option<Seq<Seq<char>>>,
    command: Option<Seq<Seq<char>>>,
    dns: Option<Seq<char>>,
) -> Seq<Seq<char>> {
    let parsed = parsed_cmd_opt(command, options);
    seq![
        "docker stop container"@,
        "docker rm container"@,
        "docker pull "@ + image,
        run_line(image, parsed.1, parsed.0, or_default(dns, default_dns())),
    ]
}

/// The text after the name server in every `docker run` line.
pub open spec fn run_tail(image: Seq<char>, command: Seq<char>) -> Seq<char> {
    " "@ + image + " "@ + command + " && docker container ls -a"@
}

/// The `docker run` line starts with the container options, when given, and
/// ends with the image, a space, the container command (nothing when
/// absent) and the listing of containers, whether or not options are given;
/// an absent part is the same as an empty one.
pub proof fn lemma_run_line_parts(
    image: Seq<char>,
    options: Option<Seq<char>>,
    command: Option<Seq<char>>,
    dns: Seq<char>,
)
    ensures
        ({
            let line = run_line(image, options, command, dns);
            let tail = run_tail(image, or_empty(command));
            &&& line.len() >= tail.len()
            &&& line.skip(line.len() - tail.len()) == tail
        }),
        command matches Some(c) ==> ({
            let line = run_line(image, options, command, dns);
            let tail = " "@ + image + " "@ + c + " && docker container ls -a"@;
            line.len() >= tail.len() && line.skip(line.len() - tail.len()) == tail
        }),
        options matches Some(o) ==> ({
            let line = run_line(image, options, command, dns);
            let head = "docker run --name container "@ + o;
            line.len() >= head.len() && line.take(head.len() as int) == head
        }),
        run_line(image, None, command, dns) == run_line(image, Some(Seq::empty()), command, dns),
        run_line(image, options, None, dns) == run_line(image, options, Some(Seq::empty()), dns),
{
    let line = run_line(image, options, command, dns);
    let tail = run_tail(image, or_empty(command));
    let front = "docker run --name container "@ + or_empty(options)
        + " -v /home/container/container_fs:/var -v /lib/modules:/lib/modules -v /var/run/dbus:/var/run/dbus -v /sys/fs/cgroup:/sys/fs/cgroup --network=host --privileged --cap-add=ALL --dns "@
        + dns;
    assert(line =~= front + tail);
    assert(line.skip(line.len() - tail.len()) =~= tail);
    if let Some(o) = options {
        let head = "docker run --name container "@ + o;
        assert(line.take(head.len() as int) =~= head);
    }
    assert(Seq::<char>::empty() == or_empty(None));
    assert(run_line(image, None, command, dns) =~= run_line(image, Some(Seq::empty()), command, dns));
    assert(run_line(image, options, None, dns) =~= run_line(image, options, Some(Seq::empty()), dns));
}

/// The lines of a deployment: stop, remove, pull the image, then the
/// `docker run` line, which ends with the image and the command split off
/// the trailing words, and starts with the options split off them.
pub proof fn lemma_deploy_lines_parts(
    image: Seq<char>,
    options: Option<Seq<Seq<char>>>,
    command: Option<Seq<Seq<char>>>,
    dns: Option<Seq<char>>,
)
    ensures
        ({
            let lines = deploy_lines(image, options, command, dns);
            let parsed = parsed_cmd_opt(command, options);
            let tail = " "@ + image + " "@ + or_empty(parsed.0) + " && docker container ls -a"@;
            &&& lines.len() == 4
            &&& lines[0] == "docker stop container"@
            &&& lines[1] == "docker rm container"@
            &&& lines[2] == "docker pull "@ + image
            &&& lines[3].len() >= tail.len()
            &&& lines[3].skip(lines[3].len() - tail.len()) == tail
            &&& (parsed.1 matches Some(o) ==> lines[3].take(
                ("docker run --name container "@ + o).len() as int,
            ) == "docker run --name container "@ + o)
        }),
{
    let parsed = parsed_cmd_opt(command, options);
    lemma_run_line_parts(image, parsed.1, parsed.0, or_default(dns, default_dns()));
}

/// Appends an optional part to `line`.
fn append_part(line: &mut String, part: &Option<String>)
    ensures
        final(line)@ == old(line)@ + or_empty(part.deep_view()),
{
    match part {
        Some(text) => line.append(text.as_str()),
        None => {
            assert(old(line)@ + Seq::<char>::empty() =~= old(line)@);
        },
    }
}

/// The `docker run` line for `image`, with the container options and command
/// already joined, and the name server to use.
pub fn run_command(image: &str, options: &Option<String>, command: &Option<String>, dns: &str) -> (line:
    String)
    ensures
        line@ == run_line(image@, options.deep_view(), command.deep_view(), dns@),
{
    let mut line = String::from_str("docker run --name container ");
    append_part(&mut line, options);
    line.append(
        " -v /home/container/container_fs:/var -v /lib/modules:/lib/modules -v /var/run/dbus:/var/run/dbus -v /sys/fs/cgroup:/sys/fs/cgroup --network=host --privileged --cap-add=ALL --dns ",
    );
    line.append(dns);
    line.append(" ");
    line.append(image);
    line.append(" ");
    append_part(&mut line, command);
    line.append(" && docker container ls -a");
    line
}

/// The lines to run on a node to deploy `image` there, given the words of
/// `--options` and `--command` and the configured name server, if any.
pub fn deploy_commands(
    image: &str,
    options: &Option<Vec<String>>,
    command: &Option<Vec<String>>,
    dns: &Option<String>,
) -> (lines: Vec<String>)
    ensures
        lines.deep_view() == deploy_lines(
            image@,
            options.deep_view(),
            command.deep_view(),
            dns.deep_view(),
        ),
{
    let (cmd, opts) = parse_cmd_opt(command, options);
    let server = match dns {
        Some(name) => name.clone(),
        None => String::from_str("192.168.3.100"),
    };
    let run = run_command(image, &opts, &cmd, server.as_str());
    let mut pull = String::from_str("docker pull ");
    pull.append(image);
    let mut lines: Vec<String> = Vec::new();
    lines.push(String::from_str("docker stop container"));
    lines.push(String::from_str("docker rm container"));
    lines.push(pull);
    lines.push(run);
    assert(lines.deep_view() =~= deploy_lines(
        image@,
        options.deep_view(),
        command.deep_view(),
        dns.deep_view(),
    ));
    lines
}

/// The nodes in the order they are served: the first node on its own, so
/// that the image is pulled once through the registry cache, then the others
/// as `Vec::swap_remove(0)` leaves them (the last node takes the first
/// node's place).
pub open spec fn served_rest(nodes: Seq<Seq<char>>) -> Seq<Seq<char>> {
    nodes.update(0, nodes.last()).drop_last()
}

/// Where each node goes once the first is taken out: the last node takes
/// the first one's place and the others keep theirs, one node fewer.
pub proof fn lemma_served_rest_positions(nodes: Seq<Seq<char>>)
    requires
        nodes.len() > 0,
    ensures
        served_rest(nodes).len() == nodes.len() - 1,
        nodes.len() >= 2 ==> served_rest(nodes)[0] == nodes[nodes.len() - 1],
        forall|i: int| 1 <= i < nodes.len() - 1 ==> #[trigger] served_rest(nodes)[i] == nodes[i],
{
}

/// Splits the nodes into the one deployed first and the ones deployed
/// together afterwards.
pub fn deployment_order(nodes: Vec<String>) -> (order: (String, Vec<String>))
    requires
        nodes.len() > 0,
    ensures
        order.0@ == nodes[0]@,
        order.1.deep_view() == served_rest(nodes.deep_view()),
{
    let ghost all = nodes.deep_view();
    let mut rest = nodes;
    let first = rest.swap_remove(0);
    assert(rest.deep_view() =~= served_rest(all));
    (first, rest)
}

/// Every node is deployed exactly once: the first node and the rest, taken
/// together, are the nodes given.
pub proof fn lemma_every_node_served_once(nodes: Seq<Seq<char>>)
    requires
        nodes.len() > 0,
    ensures
        (seq![nodes[0]] + served_rest(nodes)).to_multiset() == nodes.to_multiset(),
{
    let n = nodes.len();
    if n == 1 {
        assert(seq![nodes[0]] + served_rest(nodes) =~= nodes);
    } else {
        let mid = nodes.subrange(1, n - 1);
        let last = seq![nodes.last()];
        assert(served_rest(nodes) =~= last + mid);
        assert(nodes =~= seq![nodes[0]] + (mid + last));
        vstd::seq_lib::lemma_seq_union_to_multiset_commutative(last, mid);
        vstd::seq_lib::lemma_multiset_commutative(seq![nodes[0]], last + mid);
        vstd::seq_lib::lemma_multiset_commutative(seq![nodes[0]], mid + last);
    }
}

} // verus!
