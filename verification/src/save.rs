//! Saving the container of a node as an image in the registry.

use vstd::prelude::*;
use crate::deploy::or_default;
use crate::text::{split_at_char, split_on};
use crate::utils::decode_text;

verus! {

/// The registry that saved images are pushed to when none is configured.
pub open spec fn default_repo() -> Seq<char> {
    "faraday.repo"@
}

/// The arguments given to `docker` on the node, one call each: commit the
/// container as image `name`, tag it for the registry `repo`, push it.
pub open spec fn save_lines(name: Seq<char>, repo: Seq<char>) -> Seq<Seq<char>> {
    seq![
        "commit container "@ + name,
        "image tag "@ + name + " "@ + repo + "/"@ + name,
        "push --all-tags "@ + repo + "/"@ + name,
    ]
}

/// The image is committed under `name`, and the reference it is tagged with
/// is the one pushed: the registry, a `/`, then `name`, whatever `name`
/// holds.
pub proof fn lemma_save_pushes_to_registry(name: Seq<char>, repo: Seq<char>)
    ensures
        ({
            let lines = save_lines(name, repo);
            let pushed = repo + "/"@ + name;
            &&& lines.len() == 3
            &&& lines[0] == "commit container "@ + name
            &&& lines[1] == "image tag "@ + name + " "@ + pushed
            &&& lines[2] == "push --all-tags "@ + pushed
            &&& pushed.take(repo.len() as int) == repo
            &&& pushed.skip(pushed.len() - name.len()) == name
        }),
{
    let pushed = repo + "/"@ + name;
    assert(save_lines(name, repo)[1] =~= "image tag "@ + name + " "@ + pushed);
    assert(save_lines(name, repo)[2] =~= "push --all-tags "@ + pushed);
    assert(pushed.take(repo.len() as int) =~= repo);
    assert(pushed.skip(pushed.len() - name.len()) =~= name);
}

/// The arguments given to `docker` on a node to save its container as image
/// `name`, in the configured registry or the default one.
pub fn save_docker_args(name: &str, repo: &Option<String>) -> (args: Vec<String>)
    ensures
        args.deep_view() == save_lines(name@, or_default(repo.deep_view(), default_repo())),
{
    let registry = match repo {
        Some(r) => r.clone(),
        None => String::from_str("faraday.repo"),
    };
    let mut commit = String::from_str("commit container ");
    commit.append(name);
    let mut tag = String::from_str("image tag ");
    tag.append(name);
    tag.append(" ");
    tag.append(registry.as_str());
    tag.append("/");
    tag.append(name);
    let mut push = String::from_str("push --all-tags ");
    push.append(registry.as_str());
    push.append("/");
    push.append(name);
    let mut args: Vec<String> = Vec::new();
    args.push(commit);
    args.push(tag);
    args.push(push);
    assert(args.deep_view() =~= save_lines(name@, or_default(repo.deep_view(), default_repo())));
    args
}

/// Whether `String::truncate` to one byte less than the text's length is
/// possible: the text is not empty and its last character takes one byte.
pub open spec fn last_is_one_byte(text: Seq<char>) -> bool {
    text.len() > 0 && (text.last() as u32) < 0x80
}

/// The output can be cut before its last character exactly when it ends
/// with a character of one byte.
pub proof fn lemma_last_is_one_byte(s: Seq<char>, c: char)
    ensures
        last_is_one_byte(s.push(c)) <==> (c as u32) < 0x80,
        !last_is_one_byte(Seq::<char>::empty()),
{
}

/// The nodes to save, from what the node-listing tool printed for the node
/// given: the last character (the line end) dropped, the rest split at every
/// space. `None` when the output is not valid UTF-8, is empty, or ends with
/// a character of more than one byte.
pub fn saved_nodes(stdout: Vec<u8>) -> (nodes: Option<Vec<String>>)
    ensures
        nodes is Some <==> vstd::utf8::valid_utf8(stdout@) && last_is_one_byte(
            vstd::utf8::decode_utf8(stdout@),
        ),
        nodes matches Some(names) ==> names.deep_view() == split_on(
            vstd::utf8::decode_utf8(stdout@).drop_last(),
            ' ',
        ),
{
    match decode_text(stdout) {
        Some(text) => {
            let n = text.as_str().unicode_len();
            if n == 0 {
                return None;
            }
            let last = text.as_str().get_char(n - 1);
            if (last as u32) < 0x80 {
                let kept = text.as_str().substring_char(0, n - 1);
                assert(text@.subrange(0, n - 1) =~= text@.drop_last());
                Some(split_at_char(kept, ' '))
            } else {
                None
            }
        },
        None => None,
    }
}

} // verus!
