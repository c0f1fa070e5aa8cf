//! Removing the containers of the nodes, after the user has agreed.

use vstd::prelude::*;

verus! {

/// `char::is_whitespace`: the characters with the Unicode `White_Space`
/// property.
pub open spec fn is_white_space(c: char) -> bool {
    let v = c as u32;
    ||| 0x9 <= v <= 0xD
    ||| v == 0x20
    ||| v == 0x85
    ||| v == 0xA0
    ||| v == 0x1680
    ||| 0x2000 <= v <= 0x200A
    ||| v == 0x2028
    ||| v == 0x2029
    ||| v == 0x202F
    ||| v == 0x205F
    ||| v == 0x3000
}

/// Whether `c` is white space, as `char::is_whitespace` says.
pub fn white_space(c: char) -> (ws: bool)
    ensures
        ws == is_white_space(c),
{
    let v = c as u32;
    (0x9 <= v && v <= 0xD) || v == 0x20 || v == 0x85 || v == 0xA0 || v == 0x1680 || (0x2000 <= v
        && v <= 0x200A) || v == 0x2028 || v == 0x2029 || v == 0x202F || v == 0x205F || v == 0x3000
}

/// The answer reads `y` once white space is trimmed from both ends: it holds
/// one character that is not white space, and that character is `y`.
pub open spec fn answer_is_yes(answer: Seq<char>) -> bool {
    exists|k: int|
        0 <= k < answer.len() && answer[k] == 'y' && forall|m: int|
            0 <= m < answer.len() && m != k ==> is_white_space(#[trigger] answer[m])
}

/// An answer with two characters that are not white space is not `y`.
proof fn lemma_two_non_white(answer: Seq<char>, k: int, i: int)
    requires
        0 <= k < i < answer.len(),
        !is_white_space(answer[k]),
        !is_white_space(answer[i]),
    ensures
        !answer_is_yes(answer),
{
    if answer_is_yes(answer) {
        let w = choose|w: int|
            0 <= w < answer.len() && answer[w] == 'y' && forall|m: int|
                0 <= m < answer.len() && m != w ==> is_white_space(#[trigger] answer[m]);
        if w == k {
            assert(is_white_space(answer[i]));
        } else {
            assert(is_white_space(answer[k]));
        }
    }
}

/// A `y` between white space of any length is a yes; an answer without a
/// `y`, or with a second character that is not white space, is not.
pub proof fn lemma_answer_is_yes(before: Seq<char>, after: Seq<char>, answer: Seq<char>)
    ensures
        (forall|i: int| 0 <= i < before.len() ==> is_white_space(#[trigger] before[i])) && (forall|
            i: int,
        |
            0 <= i < after.len() ==> is_white_space(#[trigger] after[i])) ==> answer_is_yes(
            before + seq!['y'] + after,
        ),
        !answer.contains('y') ==> !answer_is_yes(answer),
{
    let s = before + seq!['y'] + after;
    if (forall|i: int| 0 <= i < before.len() ==> is_white_space(#[trigger] before[i])) && (forall|
        i: int,
    |
        0 <= i < after.len() ==> is_white_space(#[trigger] after[i])) {
        let k = before.len() as int;
        assert(s[k] == 'y');
        assert forall|m: int| 0 <= m < s.len() && m != k implies is_white_space(#[trigger] s[m]) by {
            if m < k {
                assert(s[m] == before[m]);
            } else {
                assert(s[m] == after[m - k - 1]);
            }
        }
    }
    if answer_is_yes(answer) {
        let w = choose|w: int|
            0 <= w < answer.len() && answer[w] == 'y' && forall|m: int|
                0 <= m < answer.len() && m != w ==> is_white_space(#[trigger] answer[m]);
        assert(answer.contains('y'));
    }
}

/// Whether the containers are to be destroyed: at once with `--yes`, else
/// when the answer to the question, trimmed, is `y`.
pub fn confirmed(yes: bool, answer: &str) -> (go: bool)
    ensures
        go == (yes || answer_is_yes(answer@)),
{
    if yes {
        return true;
    }
    let n = answer.unicode_len();
    let mut found: Option<usize> = None;
    let mut i: usize = 0;
    while i < n
        invariant
            !yes,
            n == answer@.len(),
            i <= n,
            found is None ==> forall|m: int| 0 <= m < i ==> is_white_space(#[trigger] answer@[m]),
            found matches Some(k) ==> k < i && !is_white_space(answer@[k as int]) && forall|m: int|
                0 <= m < i && m != k ==> is_white_space(#[trigger] answer@[m]),
        decreases n - i,
    {
        let c = answer.get_char(i);
        if !white_space(c) {
            match found {
                Some(k) => {
                    proof {
                        lemma_two_non_white(answer@, k as int, i as int);
                    }
                    return false;
                },
                None => {
                    found = Some(i);
                },
            }
        }
        i = i + 1;
    }
    match found {
        Some(k) => {
            let c = answer.get_char(k);
            if c == 'y' {
                true
            } else {
                assert(!answer_is_yes(answer@)) by {
                    if answer_is_yes(answer@) {
                        let w = choose|w: int|
                            0 <= w < answer@.len() && answer@[w] == 'y' && forall|m: int|
                                0 <= m < answer@.len() && m != w ==> is_white_space(
                                    #[trigger] answer@[m],
                                );
                        if w != k as int {
                            assert(is_white_space(answer@[w]));
                            assert(is_white_space('y'));
                        }
                    }
                }
                false
            }
        },
        None => {
            assert(!answer_is_yes(answer@)) by {
                if answer_is_yes(answer@) {
                    let w = choose|w: int|
                        0 <= w < answer@.len() && answer@[w] == 'y' && forall|m: int|
                            0 <= m < answer@.len() && m != w ==> is_white_space(
                                #[trigger] answer@[m],
                            );
                    assert(is_white_space(answer@[w]));
                    assert(is_white_space('y'));
                }
            }
            false
        },
    }
}

/// The arguments given to `docker` on a node, one call each: stop the
/// container, then delete the stopped containers.
pub open spec fn destroy_lines() -> Seq<Seq<char>> {
    seq!["stop container"@, "container prune -f"@]
}

/// The arguments given to `docker` on each node to destroy its container.
pub fn destroy_docker_args() -> (args: Vec<String>)
    ensures
        args.deep_view() == destroy_lines(),
{
    let mut args: Vec<String> = Vec::new();
    args.push(String::from_str("stop container"));
    args.push(String::from_str("container prune -f"));
    assert(args.deep_view() =~= destroy_lines());
    args
}

} // verus!
