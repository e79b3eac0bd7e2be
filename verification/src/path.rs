//! Dotted keys: a key names a walk from the root of a tree, one segment per level.

use vstd::prelude::*;
use vstd::string::StrSliceExecFns;

verus! {

/// The segments of a dotted key: the pieces between its dots. A key without a dot
/// is its own single segment; two dots in a row enclose an empty segment.
pub open spec fn split_dots(key: Seq<char>) -> Seq<Seq<char>>
    decreases key.len(),
{
    if key.len() == 0 {
        seq![Seq::empty()]
    } else {
        let before = split_dots(key.drop_last());
        if key.last() == '.' {
            before.push(Seq::empty())
        } else {
            before.update(before.len() - 1, before.last().push(key.last()))
        }
    }
}

/// The segments that a list of strings holds.
pub open spec fn segments_of(path: Vec<String>) -> Seq<Seq<char>> {
    Seq::new(path.len() as nat, |i: int| path[i]@)
}

/// A key always has a segment.
pub proof fn lemma_split_nonempty(key: Seq<char>)
    ensures
        split_dots(key).len() >= 1,
    decreases key.len(),
{
    if key.len() > 0 {
        lemma_split_nonempty(key.drop_last());
    }
}

/// A key without a dot is a single segment, the key itself.
pub proof fn lemma_split_plain(key: Seq<char>)
    requires
        forall|i: int| 0 <= i < key.len() ==> key[i] != '.',
    ensures
        split_dots(key) == seq![key],
    decreases key.len(),
{
    if key.len() == 0 {
        assert(key =~= Seq::empty());
    } else {
        lemma_split_plain(key.drop_last());
        assert(key.drop_last().push(key.last()) =~= key);
        assert(seq![key.drop_last()].update(0, key) =~= seq![key]);
    }
}

/// Two keys joined by a dot: the segments of the first, then those of the second.
pub proof fn lemma_split_joined(head: Seq<char>, tail: Seq<char>)
    ensures
        split_dots(head + seq!['.'] + tail) == split_dots(head) + split_dots(tail),
    decreases tail.len(),
{
    let whole = head + seq!['.'] + tail;
    lemma_split_nonempty(tail);
    if tail.len() == 0 {
        assert(whole.drop_last() =~= head);
        assert(split_dots(head).push(Seq::empty()) =~= split_dots(head) + split_dots(tail));
    } else {
        lemma_split_joined(head, tail.drop_last());
        lemma_split_nonempty(tail.drop_last());
        assert(whole.drop_last() =~= head + seq!['.'] + tail.drop_last());
        assert(whole.last() == tail.last());
        let a = split_dots(head);
        let b = split_dots(tail.drop_last());
        if tail.last() == '.' {
            assert((a + b).push(Seq::empty()) =~= a + b.push(Seq::empty()));
        } else {
            assert((a + b).update((a + b).len() - 1, (a + b).last().push(tail.last())) =~= a
                + b.update(b.len() - 1, b.last().push(tail.last())));
        }
    }
}

/// The key that spells a path: its segments joined by dots.
pub open spec fn join_dots(segments: Seq<Seq<char>>) -> Seq<char>
    decreases segments.len(),
{
    if segments.len() == 0 {
        Seq::empty()
    } else if segments.len() == 1 {
        segments[0]
    } else {
        join_dots(segments.drop_last()) + seq!['.'] + segments.last()
    }
}

/// Splitting undoes joining, where no segment holds a dot.
pub proof fn lemma_split_join(segments: Seq<Seq<char>>)
    requires
        segments.len() >= 1,
        forall|i: int, j: int|
            0 <= i < segments.len() && 0 <= j < segments[i].len() ==> segments[i][j] != '.',
    ensures
        split_dots(join_dots(segments)) == segments,
    decreases segments.len(),
{
    if segments.len() == 1 {
        lemma_split_plain(segments[0]);
        assert(seq![segments[0]] =~= segments);
    } else {
        let front = segments.drop_last();
        assert forall|i: int, j: int|
            0 <= i < front.len() && 0 <= j < front[i].len() implies front[i][j] != '.' by {
            assert(front[i] == segments[i]);
        }
        lemma_split_join(front);
        lemma_split_joined(join_dots(front), segments.last());
        lemma_split_plain(segments.last());
        assert(front + seq![segments.last()] =~= segments);
    }
}

/// Splits a dotted key into its segments.
pub fn split_key(key: &str) -> (path: Vec<String>)
    ensures
        segments_of(path) == split_dots(key@),
        path.len() >= 1,
{
    let n: usize = key.unicode_len();
    let mut path: Vec<String> = Vec::new();
    let mut start: usize = 0;
    let mut i: usize = 0;
    proof {
        assert(key@.take(0) =~= Seq::empty());
        assert(segments_of(path).push(key@.subrange(0, 0)) =~= seq![Seq::empty()]);
    }
    while i < n
        invariant
            n == key@.len(),
            start <= i <= n,
            split_dots(key@.take(i as int)) == segments_of(path).push(
                key@.subrange(start as int, i as int),
            ),
        decreases n - i,
    {
        let c = key.get_char(i);
        proof {
            assert(key@.take(i + 1).drop_last() =~= key@.take(i as int));
            assert(key@.take(i + 1).last() == c);
        }
        if c == '.' {
            let ghost before = segments_of(path);
            let ghost from = start as int;
            let piece = key.substring_char(start, i);
            path.push(piece.to_owned());
            start = i + 1;
            proof {
                assert(segments_of(path) =~= before.push(key@.subrange(from, i as int)));
                assert(key@.subrange(start as int, i + 1) =~= Seq::empty());
            }
        } else {
            proof {
                let segs = segments_of(path);
                let cur = key@.subrange(start as int, i as int);
                assert(cur.push(c) =~= key@.subrange(start as int, i + 1));
                assert(segs.push(cur).update(segs.len() as int, cur.push(c)) =~= segs.push(
                    cur.push(c),
                ));
            }
        }
        i += 1;
    }
    let ghost before = segments_of(path);
    let piece = key.substring_char(start, n);
    path.push(piece.to_owned());
    proof {
        assert(key@.take(n as int) =~= key@);
        assert(segments_of(path) =~= before.push(key@.subrange(start as int, n as int)));
    }
    path
}

} // verus!
