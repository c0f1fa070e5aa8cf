//! Sequences of characters: joining with a trailing space, splitting on a
//! separator, finding a word.

use vstd::prelude::*;

verus! {

/// Each item followed by one space, all concatenated: `["a", "b"]` gives
/// `"a b "`.
pub open spec fn space_terminated(items: Seq<Seq<char>>) -> Seq<char>
    decreases items.len(),
{
    if items.len() == 0 {
        Seq::empty()
    } else {
        space_terminated(items.drop_last()) + items.last() + seq![' ']
    }
}

/// Joins `items[lo..hi]`, each followed by one space.
pub fn space_terminated_range(items: &Vec<String>, lo: usize, hi: usize) -> (joined: String)
    requires
        lo <= hi <= items.len(),
    ensures
        joined@ == space_terminated(items.deep_view().subrange(lo as int, hi as int)),
{
    let ghost all = items.deep_view();
    let mut joined = String::new();
    let mut i = lo;
    proof {
        reveal_strlit(" ");
        assert(all.subrange(lo as int, lo as int) =~= Seq::<Seq<char>>::empty());
    }
    while i < hi
        invariant
            lo <= i <= hi <= items.len(),
            all == items.deep_view(),
            joined@ == space_terminated(all.subrange(lo as int, i as int)),
        decreases hi - i,
    {
        joined.append(items[i].as_str());
        joined.append(" ");
        proof {
            reveal_strlit(" ");
            assert(all.subrange(lo as int, i + 1).drop_last() =~= all.subrange(lo as int, i as int));
            assert(all[i as int] == items[i as int]@);
        }
        i = i + 1;
    }
    joined
}

/// Joins all `items`, each followed by one space.
pub fn space_terminated_join(items: &Vec<String>) -> (joined: String)
    ensures
        joined@ == space_terminated(items.deep_view()),
{
    let joined = space_terminated_range(items, 0, items.len());
    assert(items.deep_view().subrange(0, items.len() as int) =~= items.deep_view());
    joined
}


/// The pieces of `s` between occurrences of `sep`, as `str::split` with a
/// one-character pattern gives them: empty pieces included, and one piece
/// more than there are separators.
pub open spec fn split_on(s: Seq<char>, sep: char) -> Seq<Seq<char>>
    decreases s.len(),
{
    if s.len() == 0 {
        seq![Seq::empty()]
    } else {
        let pieces = split_on(s.drop_last(), sep);
        if s.last() == sep {
            pieces.push(Seq::empty())
        } else {
            pieces.update(pieces.len() - 1, pieces.last().push(s.last()))
        }
    }
}

/// `s` without its last character, or `s` itself when it is empty.
pub open spec fn without_last(s: Seq<char>) -> Seq<char> {
    if s.len() == 0 {
        s
    } else {
        s.drop_last()
    }
}

/// `p` occurs somewhere in `s`.
pub open spec fn has_infix(s: Seq<char>, p: Seq<char>) -> bool {
    exists|k: int| 0 <= k <= s.len() - p.len() && #[trigger] s.skip(k).take(p.len() as int) == p
}

/// A text occurs in any text that holds it between two others.
pub proof fn lemma_infix_between(a: Seq<char>, p: Seq<char>, b: Seq<char>)
    ensures
        has_infix(a + p + b, p),
{
    let s = a + p + b;
    assert(s.skip(a.len() as int).take(p.len() as int) =~= p);
}

/// What occurs in a text still occurs once more text is put before or after
/// it.
pub proof fn lemma_infix_extend(a: Seq<char>, p: Seq<char>, b: Seq<char>)
    requires
        has_infix(a, p),
    ensures
        has_infix(a + b, p),
        has_infix(b + a, p),
{
    let k = choose|k: int| 0 <= k <= a.len() - p.len() && #[trigger] a.skip(k).take(p.len() as int) == p;
    assert((a + b).skip(k).take(p.len() as int) =~= a.skip(k).take(p.len() as int));
    assert((b + a).skip(b.len() + k).take(p.len() as int) =~= a.skip(k).take(p.len() as int));
}

/// Dropping the last character drops exactly one character: the line end
/// that ends a tool's output is removed, whatever the output holds.
pub proof fn lemma_without_last_drops_one(s: Seq<char>, c: char)
    ensures
        without_last(s.push(c)) == s,
        s.len() > 0 ==> without_last(s) + seq![s.last()] == s,
        without_last(Seq::<char>::empty()) == Seq::<char>::empty(),
{
    assert(s.push(c).drop_last() =~= s);
    if s.len() > 0 {
        assert(s.drop_last() + seq![s.last()] =~= s);
    }
}

/// A name without spaces followed by a line end reads back as that one name.
pub proof fn lemma_one_name_line(name: Seq<char>, line_end: char)
    requires
        !name.contains(' '),
    ensures
        split_on(without_last(name.push(line_end)), ' ') == seq![name],
{
    lemma_without_last_drops_one(name, line_end);
    lemma_split_on_without_sep(name, ' ');
}

/// Joining: nothing gives nothing, one item gives that item and a space.
pub proof fn lemma_space_terminated_small(item: Seq<char>)
    ensures
        space_terminated(Seq::<Seq<char>>::empty()) == Seq::<char>::empty(),
        space_terminated(seq![item]) == item + seq![' '],
{
    assert(seq![item].drop_last() =~= Seq::<Seq<char>>::empty());
    assert(space_terminated(Seq::<Seq<char>>::empty()) =~= Seq::<char>::empty());
    assert(seq![item].last() == item);
    assert(space_terminated(seq![item]) =~= item + seq![' ']);
}

/// Splitting always yields at least one piece.
pub proof fn lemma_split_on_nonempty(s: Seq<char>, sep: char)
    ensures
        split_on(s, sep).len() >= 1,
        split_on(s, sep).len() == 1 + s.filter(|x: char| x == sep).len(),
    decreases s.len(),
{
    reveal_with_fuel(Seq::<_>::filter, 1);
    if s.len() > 0 {
        lemma_split_on_nonempty(s.drop_last(), sep);
    }
}

/// A text without the separator is a single piece.
pub proof fn lemma_split_on_without_sep(s: Seq<char>, sep: char)
    requires
        !s.contains(sep),
    ensures
        split_on(s, sep) == seq![s],
    decreases s.len(),
{
    if s.len() == 0 {
        assert(s =~= Seq::<char>::empty());
        assert(split_on(s, sep) =~= seq![s]);
    } else {
        assert(!s.drop_last().contains(sep)) by {
            if s.drop_last().contains(sep) {
                let k = choose|k: int| 0 <= k < s.drop_last().len() && s.drop_last()[k] == sep;
                assert(s[k] == sep);
            }
        }
        lemma_split_on_without_sep(s.drop_last(), sep);
        assert(s.last() != sep) by {
            assert(s[s.len() - 1] == s.last());
        }
        assert(s.drop_last().push(s.last()) =~= s);
        assert(split_on(s, sep) =~= seq![s]);
    }
}

/// Splitting around one separator splits each side on its own.
pub proof fn lemma_split_on_concat(a: Seq<char>, b: Seq<char>, sep: char)
    ensures
        split_on(a + seq![sep] + b, sep) == split_on(a, sep) + split_on(b, sep),
    decreases b.len(),
{
    if b.len() == 0 {
        assert((a + seq![sep] + b).drop_last() =~= a);
        assert(split_on(a, sep).push(Seq::empty()) =~= split_on(a, sep) + split_on(b, sep));
    } else {
        let whole = a + seq![sep] + b;
        assert(whole.drop_last() =~= a + seq![sep] + b.drop_last());
        lemma_split_on_concat(a, b.drop_last(), sep);
        lemma_split_on_nonempty(b.drop_last(), sep);
        lemma_split_on_nonempty(a, sep);
        let left = split_on(a, sep);
        let right = split_on(b.drop_last(), sep);
        assert(whole.last() == b.last());
        if b.last() == sep {
            assert((left + right).push(Seq::empty()) =~= left + right.push(Seq::empty()));
        } else {
            let lr = left + right;
            assert(lr.update(lr.len() - 1, lr.last().push(b.last())) =~= left + right.update(
                right.len() - 1,
                right.last().push(b.last()),
            ));
        }
    }
}

/// Joining names that hold no space, each followed by a space, then
/// dropping the final space and splitting on spaces gives the names back.
pub proof fn lemma_split_space_terminated(items: Seq<Seq<char>>)
    requires
        items.len() >= 1,
        forall|i: int| 0 <= i < items.len() ==> !(#[trigger] items[i]).contains(' '),
    ensures
        split_on(space_terminated(items).drop_last(), ' ') == items,
    decreases items.len(),
{
    let init = items.drop_last();
    let last = items.last();
    assert(!last.contains(' ')) by {
        assert(items[items.len() - 1] == last);
    }
    assert(space_terminated(items).drop_last() =~= space_terminated(init) + last);
    lemma_split_on_without_sep(last, ' ');
    if init.len() == 0 {
        assert(space_terminated(init) + last =~= last);
        assert(items =~= seq![last]);
    } else {
        assert forall|i: int| 0 <= i < init.len() implies !(#[trigger] init[i]).contains(' ') by {
            assert(init[i] == items[i]);
        }
        lemma_split_space_terminated(init);
        let prefix = space_terminated(init).drop_last();
        assert(space_terminated(init) =~= prefix + seq![' ']);
        assert(space_terminated(init) + last =~= prefix + seq![' '] + last);
        lemma_split_on_concat(prefix, last, ' ');
        assert(init + seq![last] =~= items);
    }
}


/// Joining a concatenation joins each part.
pub proof fn lemma_space_terminated_concat(a: Seq<Seq<char>>, b: Seq<Seq<char>>)
    ensures
        space_terminated(a + b) == space_terminated(a) + space_terminated(b),
    decreases b.len(),
{
    if b.len() == 0 {
        assert(a + b =~= a);
        assert(space_terminated(a) + space_terminated(b) =~= space_terminated(a));
    } else {
        lemma_space_terminated_concat(a, b.drop_last());
        assert((a + b).drop_last() =~= a + b.drop_last());
        assert((a + b).last() == b.last());
        assert(space_terminated(a + b) =~= space_terminated(a) + space_terminated(b));
    }
}

/// The position of the first item equal to `target`, if any.
pub open spec fn first_index(items: Seq<Seq<char>>, target: Seq<char>) -> Option<int>
    decreases items.len(),
{
    if items.len() == 0 {
        None
    } else {
        match first_index(items.drop_last(), target) {
            Some(i) => Some(i),
            None => if items.last() == target {
                Some(items.len() - 1)
            } else {
                None
            },
        }
    }
}

/// What `first_index` finds is the first occurrence.
pub proof fn lemma_first_index(items: Seq<Seq<char>>, target: Seq<char>)
    ensures
        match first_index(items, target) {
            Some(i) => 0 <= i < items.len() && items[i] == target && forall|j: int|
                0 <= j < i ==> items[j] != target,
            None => forall|j: int| 0 <= j < items.len() ==> items[j] != target,
        },
    decreases items.len(),
{
    if items.len() > 0 {
        lemma_first_index(items.drop_last(), target);
        assert forall|j: int| 0 <= j < items.len() - 1 implies items[j] == items.drop_last()[j] by {}
    }
}

/// An item equal to `target` with none before it is the first occurrence.
pub proof fn lemma_first_index_at(items: Seq<Seq<char>>, target: Seq<char>, k: int)
    requires
        0 <= k < items.len(),
        items[k] == target,
        forall|j: int| 0 <= j < k ==> items[j] != target,
    ensures
        first_index(items, target) == Some(k),
    decreases items.len(),
{
    let init = items.drop_last();
    if k < items.len() - 1 {
        lemma_first_index_at(init, target, k);
    } else {
        lemma_first_index(init, target);
        if first_index(init, target) is Some {
            let i = first_index(init, target)->0;
            assert(items[i] == init[i]);
        }
    }
}

/// An occurrence found in a prefix is the first occurrence of the whole.
proof fn lemma_first_index_prefix(items: Seq<Seq<char>>, target: Seq<char>, k: int)
    requires
        0 <= k <= items.len(),
        first_index(items.take(k), target) is Some,
    ensures
        first_index(items, target) == first_index(items.take(k), target),
    decreases items.len(),
{
    if k < items.len() {
        assert(items.drop_last().take(k) =~= items.take(k));
        lemma_first_index_prefix(items.drop_last(), target, k);
    } else {
        assert(items.take(k) =~= items);
    }
}

/// Whether two texts hold the same characters.
pub fn same_text(a: &str, b: &str) -> (same: bool)
    ensures
        same == (a@ == b@),
{
    let n = a.unicode_len();
    if n != b.unicode_len() {
        return false;
    }
    let mut i: usize = 0;
    while i < n
        invariant
            n == a@.len() == b@.len(),
            i <= n,
            forall|j: int| 0 <= j < i ==> a@[j] == b@[j],
        decreases n - i,
    {
        if a.get_char(i) != b.get_char(i) {
            return false;
        }
        i = i + 1;
    }
    assert(a@ =~= b@);
    true
}

/// The position of the first item that reads `target`, if any.
pub fn find_first(items: &Vec<String>, target: &str) -> (found: Option<usize>)
    ensures
        found matches Some(i) ==> first_index(items.deep_view(), target@) == Some(i as int),
        found is None ==> first_index(items.deep_view(), target@) is None,
{
    let ghost all = items.deep_view();
    let mut i: usize = 0;
    assert(all.take(0) =~= Seq::<Seq<char>>::empty());
    while i < items.len()
        invariant
            i <= items.len(),
            all == items.deep_view(),
            first_index(all.take(i as int), target@) is None,
        decreases items.len() - i,
    {
        assert(all.take(i + 1).drop_last() =~= all.take(i as int));
        assert(all.take(i + 1).last() == items[i as int]@);
        if same_text(items[i].as_str(), target) {
            proof {
                lemma_first_index_prefix(all, target@, i + 1);
            }
            return Some(i);
        }
        i = i + 1;
    }
    assert(all.take(i as int) =~= all);
    None
}

/// Splits `s` at every `sep`, as `s.split(sep)` does.
pub fn split_at_char(s: &str, sep: char) -> (pieces: Vec<String>)
    ensures
        pieces.deep_view() == split_on(s@, sep),
{
    let n = s.unicode_len();
    let mut pieces: Vec<String> = Vec::new();
    let mut start: usize = 0;
    let mut i: usize = 0;
    assert(s@.subrange(0, 0) =~= Seq::<char>::empty());
    assert(pieces.deep_view().push(s@.subrange(0, 0)) =~= split_on(s@.subrange(0, 0), sep));
    while i < n
        invariant
            n == s@.len(),
            start <= i <= n,
            split_on(s@.subrange(0, i as int), sep) == pieces.deep_view().push(
                s@.subrange(start as int, i as int),
            ),
        decreases n - i,
    {
        let c = s.get_char(i);
        let ghost before = pieces.deep_view();
        assert(s@.subrange(0, i + 1).drop_last() =~= s@.subrange(0, i as int));
        assert(s@.subrange(0, i + 1).last() == c);
        if c == sep {
            let piece = String::from_str(s.substring_char(start, i));
            pieces.push(piece);
            start = i + 1;
            assert(pieces.deep_view() =~= before.push(piece@));
            assert(s@.subrange(start as int, i + 1) =~= Seq::<char>::empty());
        } else {
            assert(s@.subrange(start as int, i as int).push(c) =~= s@.subrange(
                start as int,
                i + 1,
            ));
            assert(before.push(s@.subrange(start as int, i as int)).update(
                before.len() as int,
                s@.subrange(start as int, i + 1),
            ) =~= before.push(s@.subrange(start as int, i + 1)));
        }
        i = i + 1;
    }
    let ghost before = pieces.deep_view();
    let last = String::from_str(s.substring_char(start, n));
    pieces.push(last);
    assert(pieces.deep_view() =~= before.push(last@));
    assert(s@.subrange(0, n as int) =~= s@);
    pieces
}

/// `s` without its last character, as `String::pop` leaves it.
pub fn drop_last_char(s: &str) -> (rest: String)
    ensures
        rest@ == without_last(s@),
{
    let n = s.unicode_len();
    if n == 0 {
        String::from_str(s)
    } else {
        let rest = String::from_str(s.substring_char(0, n - 1));
        assert(s@.subrange(0, n - 1) =~= s@.drop_last());
        rest
    }
}

} // verus!
