use baleine::utils::{node_args, nodes_from_env, nodes_from_listing, parse_cmd_opt};
use baleine::text::{space_terminated_join, split_at_char};

fn words(items: &[&str]) -> Vec<String> {
    items.iter().map(|s| s.to_string()).collect()
}

fn some(s: &str) -> Option<String> {
    Some(s.to_string())
}

#[test]
fn command_with_options_flag_is_split() {
    let command = Some(words(&["ls", "-la", "--options", "-it", "--rm"]));
    assert_eq!(parse_cmd_opt(&command, &None), (some("ls -la "), some("-it --rm ")));
}

#[test]
fn options_with_command_flag_is_split() {
    let options = Some(words(&["-it", "--command", "bash", "-c", "echo"]));
    assert_eq!(parse_cmd_opt(&None, &options), (some("bash -c echo "), some("-it ")));
}

#[test]
fn command_given_ignores_options() {
    let command = Some(words(&["ls", "-l"]));
    let options = Some(words(&["-x"]));
    assert_eq!(parse_cmd_opt(&command, &options), (some("ls -l "), None));
}

#[test]
fn options_only_without_flag() {
    let options = Some(words(&["-x", "-y"]));
    assert_eq!(parse_cmd_opt(&None, &options), (None, some("-x -y ")));
}

#[test]
fn nothing_given() {
    assert_eq!(parse_cmd_opt(&None, &None), (None, None));
}

#[test]
fn flag_first_gives_empty_command() {
    let command = Some(words(&["--options", "a"]));
    assert_eq!(parse_cmd_opt(&command, &None), (some(""), some("a ")));
}

#[test]
fn split_at_first_flag_only() {
    let command = Some(words(&["a", "--options", "b", "--options", "c"]));
    assert_eq!(parse_cmd_opt(&command, &None), (some("a "), some("b --options c ")));
}

#[test]
fn empty_command_words() {
    assert_eq!(parse_cmd_opt(&Some(vec![]), &None), (some(""), None));
}

#[test]
fn split_keeps_the_rest_of_the_words() {
    // the part before the flag, the flag and a space, the part after: the words joined
    let all = words(&["ls", "-la", "--options", "-it", "--rm"]);
    let (cmd, opts) = parse_cmd_opt(&Some(all.clone()), &None);
    assert_eq!(format!("{}--options {}", cmd.unwrap(), opts.unwrap()), space_terminated_join(&all));
}

#[test]
fn join_puts_a_space_after_each_word() {
    assert_eq!(space_terminated_join(&words(&["a", "bc"])), "a bc ");
    assert_eq!(space_terminated_join(&vec![]), "");
}

#[test]
fn split_keeps_empty_pieces() {
    assert_eq!(split_at_char("fit01 fit02", ' '), words(&["fit01", "fit02"]));
    assert_eq!(split_at_char("a  b", ' '), words(&["a", "", "b"]));
    assert_eq!(split_at_char("", ' '), words(&[""]));
    assert_eq!(split_at_char(" x ", ' '), words(&["", "x", ""]));
}

#[test]
fn node_args_end_with_a_space() {
    assert_eq!(node_args(&words(&["1", "fit02"])), words(&["1 ", "fit02 "]));
}

#[test]
fn listing_output_is_split() {
    assert_eq!(nodes_from_listing(b"fit01 fit02\n".to_vec()), Some(words(&["fit01", "fit02"])));
    assert_eq!(nodes_from_listing(b"".to_vec()), Some(words(&[""])));
    assert_eq!(nodes_from_listing(vec![0xff, 0x0a]), None);
}

#[test]
fn listing_drops_a_last_character_of_several_bytes() {
    assert_eq!(nodes_from_listing("fit01 fité".as_bytes().to_vec()), Some(words(&["fit01", "fit"])));
}

#[test]
fn joined_names_read_back() {
    let names = words(&["fit01", "fit02", "fit03"]);
    let joined = space_terminated_join(&names);
    assert_eq!(nodes_from_listing(joined.into_bytes()), Some(names));
}

#[test]
fn env_nodes_are_split_at_spaces() {
    assert_eq!(nodes_from_env(some("fit01 fit02")), Some(words(&["fit01", "fit02"])));
    assert_eq!(nodes_from_env(some("fit01  fit02")), Some(words(&["fit01", "", "fit02"])));
    assert_eq!(nodes_from_env(some("fit07")), Some(words(&["fit07"])));
    assert_eq!(nodes_from_env(some("")), None);
    assert_eq!(nodes_from_env(None), None);
}

#[test]
fn flag_order_does_not_matter() {
    let command_first = parse_cmd_opt(&Some(words(&["ls", "-l", "--options", "-it"])), &None);
    let options_first = parse_cmd_opt(&None, &Some(words(&["-it", "--command", "ls", "-l"])));
    assert_eq!(command_first, options_first);
    assert_eq!(command_first, (some("ls -l "), some("-it ")));
}
