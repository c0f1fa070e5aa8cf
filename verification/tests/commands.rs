use baleine::deploy::{deploy_commands, deployment_order, run_command};
use baleine::destroy::{confirmed, destroy_docker_args, white_space};
use baleine::image_build::build_command;
use baleine::list::{concat_lines, list_heading, listed_from, listed_members, registry_url};
use baleine::save::{save_docker_args, saved_nodes};

fn words(items: &[&str]) -> Vec<String> {
    items.iter().map(|s| s.to_string()).collect()
}

fn some(s: &str) -> Option<String> {
    Some(s.to_string())
}

const RUN_MIDDLE: &str = " -v /home/container/container_fs:/var -v /lib/modules:/lib/modules -v /var/run/dbus:/var/run/dbus -v /sys/fs/cgroup:/sys/fs/cgroup --network=host --privileged --cap-add=ALL --dns ";

#[test]
fn deploy_lines_with_defaults() {
    let lines = deploy_commands("ubuntu:latest", &None, &None, &None);
    assert_eq!(lines.len(), 4);
    assert_eq!(lines[0], "docker stop container");
    assert_eq!(lines[1], "docker rm container");
    assert_eq!(lines[2], "docker pull ubuntu:latest");
    assert_eq!(
        lines[3],
        format!("docker run --name container {}192.168.3.100 ubuntu:latest  && docker container ls -a", RUN_MIDDLE)
    );
}

#[test]
fn deploy_lines_with_options_and_command() {
    let command = Some(words(&["bash", "--options", "-it"]));
    let lines = deploy_commands("img", &None, &command, &some("10.0.0.1"));
    assert_eq!(
        lines[3],
        format!("docker run --name container -it {}10.0.0.1 img bash  && docker container ls -a", RUN_MIDDLE)
    );
}

#[test]
fn run_line_exact() {
    let line = run_command("i", &some("-o "), &some("c "), "d");
    assert_eq!(line, format!("docker run --name container -o {}d i c  && docker container ls -a", RUN_MIDDLE));
}

#[test]
fn first_node_then_swapped_rest() {
    let (first, rest) = deployment_order(words(&["a", "b", "c", "d"]));
    assert_eq!(first, "a");
    assert_eq!(rest, words(&["d", "b", "c"]));
    let (first, rest) = deployment_order(words(&["solo"]));
    assert_eq!(first, "solo");
    assert!(rest.is_empty());
}

#[test]
fn every_node_served_once() {
    let nodes = words(&["fit01", "fit02", "fit03", "fit04", "fit05"]);
    let (first, rest) = deployment_order(nodes.clone());
    let mut all = vec![first];
    all.extend(rest);
    all.sort();
    assert_eq!(all, nodes);
}

#[test]
fn confirmation_answers() {
    assert!(confirmed(true, "n"));
    assert!(confirmed(false, "y\n"));
    assert!(confirmed(false, "  y \t"));
    assert!(confirmed(false, "\u{3000}y"));
    assert!(!confirmed(false, "yes"));
    assert!(!confirmed(false, ""));
    assert!(!confirmed(false, "y y"));
    assert!(!confirmed(false, "Y"));
    assert!(!confirmed(false, "n\n"));
}

#[test]
fn white_space_as_std_says() {
    for c in ['\t', '\n', '\r', ' ', '\u{85}', '\u{a0}', '\u{2003}', '\u{3000}', 'a', 'y', '\u{200b}', '0'] {
        assert_eq!(white_space(c), c.is_whitespace(), "{:?}", c);
    }
}

#[test]
fn destroy_arguments() {
    assert_eq!(destroy_docker_args(), words(&["stop container", "container prune -f"]));
}

#[test]
fn save_arguments_default_registry() {
    assert_eq!(
        save_docker_args("myimg", &None),
        words(&["commit container myimg", "image tag myimg faraday.repo/myimg", "push --all-tags faraday.repo/myimg"])
    );
    assert_eq!(
        save_docker_args("x", &some("reg:5000")),
        words(&["commit container x", "image tag x reg:5000/x", "push --all-tags reg:5000/x"])
    );
}

#[test]
fn saved_nodes_from_output() {
    assert_eq!(saved_nodes(b"fit01 fit02\n".to_vec()), Some(words(&["fit01", "fit02"])));
    assert_eq!(saved_nodes(b"\n".to_vec()), Some(words(&[""])));
    assert_eq!(saved_nodes(b"".to_vec()), None);
    assert_eq!(saved_nodes("fité".as_bytes().to_vec()), None);
    assert_eq!(saved_nodes(vec![0xc3]), None);
}

#[test]
fn registry_addresses() {
    assert_eq!(registry_url("http://", "faraday.repo", &None), "http://faraday.repo/v2/_catalog");
    assert_eq!(registry_url("https://", "r", &some("ubuntu")), "https://r/v2/ubuntu/tags/list");
}

#[test]
fn headings() {
    assert_eq!(list_heading("http://", "faraday.repo", &None), "List of Images on http://faraday.repo");
    assert_eq!(list_heading("http://", "r", &some("ubuntu")), "List of tags for the ubuntu image :");
}

#[test]
fn listed_catalogue() {
    let body = r#"{"repositories":["alpine","ubuntu"]}"#;
    assert_eq!(listed_members(body), Some(words(&["alpine", "ubuntu"])));
}

#[test]
fn listed_tags() {
    let body = r#"{"name":"ubuntu","tags":["20.04","latest"]}"#;
    assert_eq!(listed_members(body), Some(words(&["20.04", "latest"])));
}

#[test]
fn listed_other_values_as_json() {
    let body = r#"{"repositories":[1, true, null, {"a":2}], "tags": "x"}"#;
    assert_eq!(listed_members(body), Some(words(&["1", "true", "null", "{\"a\":2}"])));
}

#[test]
fn listing_a_failed_request() {
    assert_eq!(listed_members("ERROR"), None);
    assert_eq!(listed_members("[1, 2]"), Some(vec![]));
}

#[test]
fn lines_concatenated() {
    assert_eq!(concat_lines(words(&["a"]), words(&["b", "c"])), words(&["a", "b", "c"]));
}

#[test]
fn build_from_url() {
    let line = build_command(&None, &some("https://x/y.git"), &words(&["t1", "t2"]), &None, &None);
    assert_eq!(
        line,
        "docker build -t localhost:80/t1 -t faraday.repo/t1 -t localhost:80/t2 -t faraday.repo/t2 https://x/y.git && docker push --all-tags localhost:80/t1 && docker push localhost:80/t1 && docker push faraday.repo/t1 && docker push localhost:80/t2 && docker push faraday.repo/t2"
    );
}

#[test]
fn build_from_file() {
    let line = build_command(&some("Dockerfile"), &None, &words(&["t"]), &some("5000"), &some("reg"));
    assert_eq!(
        line,
        "docker build  -t localhost:5000/t -t reg/t -f Dockerfile . && docker push --all-tags localhost:5000/t && docker push localhost:5000/t && docker push reg/t"
    );
}

#[test]
fn listed_from_both_reads() {
    assert_eq!(listed_from(Some(words(&["a"])), Some(words(&["t"]))), Some(words(&["a", "t"])));
    assert_eq!(listed_from(None, Some(words(&["t"]))), None);
    assert_eq!(listed_from(Some(words(&["a"])), None), None);
}
