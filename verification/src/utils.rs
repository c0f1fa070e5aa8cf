//! Splitting the trailing command line into container options and a
//! container command, and turning node lists into arguments and back.

use vstd::prelude::*;
use crate::text::{
    find_first, first_index, lemma_first_index, lemma_first_index_at, lemma_space_terminated_concat, space_terminated,
    space_terminated_join, space_terminated_range, split_at_char, split_on, drop_last_char,
    without_last,
};

verus! {

/// The word that, inside the words of `--command`, starts the options.
pub open spec fn options_flag() -> Seq<char> {
    "--options"@
}

/// The word that, inside the words of `--options`, starts the command.
pub open spec fn command_flag() -> Seq<char> {
    "--command"@
}

/// What `parse_cmd_opt` returns, as (command, options).
///
/// Whichever of the two flags came first on the command line took every
/// word after it, the other flag included. When `--command` was given, its
/// words are split at the first `--options`; otherwise the words of
/// `--options` are split at the first `--command`. Each part is joined with
/// a space after every word. The words of `--options` are not looked at
/// when `--command` was given.
pub open spec fn parsed_cmd_opt(
    command: Option<Seq<Seq<char>>>,
    options: Option<Seq<Seq<char>>>,
) -> (Option<Seq<char>>, Option<Seq<char>>) {
    match command {
        Some(words) => match first_index(words, options_flag()) {
            Some(i) => (
                Some(space_terminated(words.take(i))),
                Some(space_terminated(words.skip(i + 1))),
            ),
            None => (Some(space_terminated(words)), None),
        },
        None => match options {
            Some(words) => match first_index(words, command_flag()) {
                Some(i) => (
                    Some(space_terminated(words.skip(i + 1))),
                    Some(space_terminated(words.take(i))),
                ),
                None => (None, Some(space_terminated(words))),
            },
            None => (None, None),
        },
    }
}

/// Splits the words given to `--command` and `--options` into the command
/// and the options to hand to the container, as (command, options).
pub fn parse_cmd_opt(command: &Option<Vec<String>>, options: &Option<Vec<String>>) -> (parsed: (
    Option<String>,
    Option<String>,
))
    ensures
        (parsed.0.deep_view(), parsed.1.deep_view()) == parsed_cmd_opt(
            command.deep_view(),
            options.deep_view(),
        ),
{
    match command {
        Some(words) => {
            let ghost all = words.deep_view();
            match find_first(words, "--options") {
                Some(index) => {
                    proof {
                        lemma_first_index(all, options_flag());
                    }
                    let before = space_terminated_range(words, 0, index);
                    let after = space_terminated_range(words, index + 1, words.len());
                    assert(all.subrange(0, index as int) =~= all.take(index as int));
                    assert(all.subrange(index + 1, words.len() as int) =~= all.skip(index + 1));
                    (Some(before), Some(after))
                },
                None => (Some(space_terminated_join(words)), None),
            }
        },
        None => match options {
            Some(words) => {
                let ghost all = words.deep_view();
                match find_first(words, "--command") {
                    Some(index) => {
                        proof {
                            lemma_first_index(all, command_flag());
                        }
                        let before = space_terminated_range(words, 0, index);
                        let after = space_terminated_range(words, index + 1, words.len());
                        assert(all.subrange(0, index as int) =~= all.take(index as int));
                        assert(all.subrange(index + 1, words.len() as int) =~= all.skip(
                            index + 1,
                        ));
                        (Some(after), Some(before))
                    },
                    None => (None, Some(space_terminated_join(words))),
                }
            },
            None => (None, None),
        },
    }
}

/// Splitting at a flag loses no word but the flag: the part before it, the
/// flag and a space, and the part after it make up the joined words.
pub proof fn lemma_split_keeps_words(words: Seq<Seq<char>>, flag: Seq<char>)
    requires
        first_index(words, flag) is Some,
    ensures
        ({
            let i = first_index(words, flag)->0;
            space_terminated(words.take(i)) + flag + seq![' '] + space_terminated(words.skip(i + 1))
                == space_terminated(words)
        }),
{
    let i = first_index(words, flag)->0;
    lemma_first_index(words, flag);
    assert(words =~= words.take(i) + (seq![flag] + words.skip(i + 1)));
    lemma_space_terminated_concat(words.take(i), seq![flag] + words.skip(i + 1));
    lemma_space_terminated_concat(seq![flag], words.skip(i + 1));
    assert(seq![flag].drop_last() =~= Seq::<Seq<char>>::empty());
    assert(space_terminated(Seq::<Seq<char>>::empty()) =~= Seq::<char>::empty());
    assert(seq![flag].last() == flag);
    assert(space_terminated(seq![flag]) =~= flag + seq![' ']);
}

/// Without its flag among the words, nothing is split off: the words of
/// `--command` alone are the whole command and there are no options, and the
/// words of `--options` alone are the whole options and there is no command.
/// With neither, there is neither.
pub proof fn lemma_no_flag_no_split(words: Seq<Seq<char>>, other: Option<Seq<Seq<char>>>)
    ensures
        (forall|j: int| 0 <= j < words.len() ==> words[j] != options_flag()) ==> parsed_cmd_opt(
            Some(words),
            other,
        ) == (Some(space_terminated(words)), None::<Seq<char>>),
        (forall|j: int| 0 <= j < words.len() ==> words[j] != command_flag()) ==> parsed_cmd_opt(
            None,
            Some(words),
        ) == (None::<Seq<char>>, Some(space_terminated(words))),
        parsed_cmd_opt(None, None) == (None::<Seq<char>>, None::<Seq<char>>),
{
    lemma_first_index(words, options_flag());
    lemma_first_index(words, command_flag());
}

/// Whichever flag comes first takes the other's words along, and the
/// split gives the same command and options either way: `--command c..
/// --options o..` and `--options o.. --command c..` both give the words
/// `c..` as the command and `o..` as the options.
pub proof fn lemma_flag_order_irrelevant(
    command: Seq<Seq<char>>,
    options: Seq<Seq<char>>,
    other: Option<Seq<Seq<char>>>,
)
    requires
        forall|i: int| 0 <= i < command.len() ==> command[i] != options_flag(),
        forall|i: int| 0 <= i < options.len() ==> options[i] != command_flag(),
    ensures
        parsed_cmd_opt(Some(command + seq![options_flag()] + options), other) == (
            Some(space_terminated(command)),
            Some(space_terminated(options)),
        ),
        parsed_cmd_opt(None, Some(options + seq![command_flag()] + command)) == (
            Some(space_terminated(command)),
            Some(space_terminated(options)),
        ),
{
    let first = command + seq![options_flag()] + options;
    let k = command.len() as int;
    assert forall|j: int| 0 <= j < k implies first[j] != options_flag() by {
        assert(first[j] == command[j]);
    }
    lemma_first_index_at(first, options_flag(), k);
    assert(first.take(k) =~= command);
    assert(first.skip(k + 1) =~= options);
    let second = options + seq![command_flag()] + command;
    let m = options.len() as int;
    assert forall|j: int| 0 <= j < m implies second[j] != command_flag() by {
        assert(second[j] == options[j]);
    }
    lemma_first_index_at(second, command_flag(), m);
    assert(second.take(m) =~= options);
    assert(second.skip(m + 1) =~= command);
}

/// Every node name followed by a space, one argument each.
pub fn node_args(nodes: &Vec<String>) -> (args: Vec<String>)
    ensures
        args.len() == nodes.len(),
        forall|i: int| 0 <= i < nodes.len() ==> (#[trigger] args[i])@ == nodes[i]@ + seq![' '],
{
    let mut args: Vec<String> = Vec::new();
    let mut i: usize = 0;
    while i < nodes.len()
        invariant
            i <= nodes.len(),
            args.len() == i,
            forall|j: int| 0 <= j < i ==> (#[trigger] args[j])@ == nodes[j]@ + seq![' '],
        decreases nodes.len() - i,
    {
        let mut arg = nodes[i].clone();
        arg.append(" ");
        proof {
            reveal_strlit(" ");
        }
        args.push(arg);
        i = i + 1;
    }
    args
}

/// The bytes that a process printed, as text: `String::from_utf8`. It gives
/// a text exactly when the bytes are valid UTF-8, and then the text they
/// encode.
#[verifier::external_body]
pub(crate) fn decode_text(bytes: Vec<u8>) -> (text: Option<String>)
    ensures
        text is Some <==> vstd::utf8::valid_utf8(bytes@),
        text matches Some(t) ==> t@ == vstd::utf8::decode_utf8(bytes@),
{
    String::from_utf8(bytes).ok()
}

/// The nodes named by what the node-listing tool printed: the last
/// character (the line end) dropped, the rest split at every space. `None`
/// when the output is not valid UTF-8.
pub fn nodes_from_listing(stdout: Vec<u8>) -> (nodes: Option<Vec<String>>)
    ensures
        nodes is Some <==> vstd::utf8::valid_utf8(stdout@),
        nodes matches Some(names) ==> names.deep_view() == split_on(
            without_last(vstd::utf8::decode_utf8(stdout@)),
            ' ',
        ),
        vstd::utf8::decode_utf8(stdout@).len() > 0 ==> (nodes matches Some(names)
            ==> names.deep_view() == split_on(vstd::utf8::decode_utf8(stdout@).drop_last(), ' ')),
{
    match decode_text(stdout) {
        Some(text) => {
            let trimmed = drop_last_char(text.as_str());
            Some(split_at_char(trimmed.as_str(), ' '))
        },
        None => None,
    }
}

/// The nodes named by the value of `$NODES`, separated by spaces: the value
/// split at every space. `None` when the variable is unset or empty.
pub fn nodes_from_env(value: Option<String>) -> (nodes: Option<Vec<String>>)
    ensures
        nodes is Some <==> (value matches Some(v) && v@.len() > 0),
        nodes matches Some(names) ==> names.deep_view() == split_on(value->0@, ' '),
{
    match value {
        Some(v) => {
            if v.as_str().unicode_len() == 0 {
                None
            } else {
                Some(split_at_char(v.as_str(), ' '))
            }
        },
        None => None,
    }
}

} // verus!
