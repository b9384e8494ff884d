//! Command names and the paths they stand for.
//!
//! A name such as `"note add"` is the path `["note", "add"]`: its segments
//! are what lies between the separators.

use vstd::prelude::*;
use vstd::string::{StrSliceExecFns, StringExecFns};

verus! {

/// The character that parts the segments of a command name.
pub const SEPARATOR: char = ' ';

/// The segments of `name`: what lies before, between and after the
/// occurrences of `separator`. There is always at least one segment, and a
/// segment may be empty.
pub open spec fn split(name: Seq<char>, separator: char) -> Seq<Seq<char>>
    decreases name.len(),
{
    if name.len() == 0 {
        seq![Seq::empty()]
    } else {
        let before = split(name.drop_last(), separator);
        if name.last() == separator {
            before.push(Seq::empty())
        } else {
            before.update(before.len() - 1, before.last().push(name.last()))
        }
    }
}

/// The segments joined again, with `separator` between neighbours.
pub open spec fn join(parts: Seq<Seq<char>>, separator: char) -> Seq<char>
    decreases parts.len(),
{
    if parts.len() == 0 {
        Seq::empty()
    } else if parts.len() == 1 {
        parts[0]
    } else {
        join(parts.drop_last(), separator).push(separator) + parts.last()
    }
}

/// A name has at least one segment, no segment holds the separator, and the
/// segments joined by the separator give the name back.
pub proof fn lemma_split(name: Seq<char>, separator: char)
    ensures
        split(name, separator).len() >= 1,
        forall|i: int, j: int|
            0 <= i < split(name, separator).len() && 0 <= j < split(name, separator)[i].len()
                ==> split(name, separator)[i][j] != separator,
        join(split(name, separator), separator) == name,
    decreases name.len(),
{
    if name.len() > 0 {
        let before = split(name.drop_last(), separator);
        lemma_split(name.drop_last(), separator);
        let parts = split(name, separator);
        if name.last() == separator {
            assert(parts.drop_last() == before);
            assert(join(parts, separator) == name.drop_last().push(separator) + Seq::<char>::empty());
            assert(name.drop_last().push(separator) + Seq::<char>::empty() == name);
        } else {
            lemma_join_grows(before, name.last(), separator);
            assert(name.drop_last().push(name.last()) == name);
        }
    } else {
        assert(join(split(name, separator), separator) == name);
    }
}

/// A name that holds no separator is its own single segment.
pub proof fn lemma_split_of_single_segment(name: Seq<char>, separator: char)
    requires
        forall|i: int| 0 <= i < name.len() ==> name[i] != separator,
    ensures
        split(name, separator) == seq![name],
    decreases name.len(),
{
    if name.len() > 0 {
        lemma_split_of_single_segment(name.drop_last(), separator);
        assert(seq![name.drop_last()].update(0, name.drop_last().push(name.last())) =~= seq![name]) by {
            assert(name.drop_last().push(name.last()) =~= name);
        }
    } else {
        assert(name =~= Seq::<char>::empty());
    }
}

/// What follows the last separator of a name is its last segment, and what
/// stands before that separator gives the segments before it.
pub proof fn lemma_split_at_last_separator(head: Seq<char>, tail: Seq<char>, separator: char)
    requires
        forall|i: int| 0 <= i < tail.len() ==> tail[i] != separator,
    ensures
        split(head.push(separator) + tail, separator) == split(head, separator).push(tail),
    decreases tail.len(),
{
    let name = head.push(separator) + tail;
    if tail.len() == 0 {
        assert(name =~= head.push(separator));
        assert(name.drop_last() =~= head);
        assert(tail =~= Seq::<char>::empty());
    } else {
        lemma_split_at_last_separator(head, tail.drop_last(), separator);
        assert(name.drop_last() =~= head.push(separator) + tail.drop_last());
        assert(name.last() == tail.last());
        let before = split(head, separator).push(tail.drop_last());
        assert(tail.drop_last().push(tail.last()) =~= tail);
        assert(before.update(before.len() - 1, before.last().push(tail.last())) =~= split(
            head,
            separator,
        ).push(tail));
    }
}

/// A character added to the last part is added to what the parts join to.
proof fn lemma_join_grows(parts: Seq<Seq<char>>, c: char, separator: char)
    requires
        parts.len() >= 1,
    ensures
        join(parts.update(parts.len() - 1, parts.last().push(c)), separator) == join(
            parts,
            separator,
        ).push(c),
{
    let grown = parts.update(parts.len() - 1, parts.last().push(c));
    if parts.len() > 1 {
        assert(grown.drop_last() == parts.drop_last());
        let head = join(parts.drop_last(), separator).push(separator);
        assert(head + parts.last().push(c) == (head + parts.last()).push(c));
    }
}

/// Splits a command name into its segments.
pub fn split_name(name: &str) -> (path: Vec<String>)
    ensures
        path@.map_values(|segment: String| segment@) == split(name@, SEPARATOR),
{
    let length = name.unicode_len();
    let mut path: Vec<String> = Vec::new();
    let mut start: usize = 0;
    let mut i: usize = 0;
    assert(name@.take(0) == Seq::<char>::empty());
    assert(name@.subrange(0, 0) == Seq::<char>::empty());
    while i < length
        invariant
            start <= i <= length,
            length == name@.len(),
            path@.map_values(|segment: String| segment@).push(name@.subrange(start as int, i as int))
                == split(name@.take(i as int), SEPARATOR),
        decreases length - i,
    {
        let ghost done = path@.map_values(|segment: String| segment@);
        let ghost current = name@.subrange(start as int, i as int);
        assert(name@.take(i + 1).drop_last() == name@.take(i as int));
        assert(name@.take(i + 1).last() == name@[i as int]);
        if name.get_char(i) == SEPARATOR {
            path.push(String::from_str(name.substring_char(start, i)));
            start = i + 1;
            assert(path@.map_values(|segment: String| segment@) == done.push(current));
            assert(name@.subrange(start as int, i + 1) == Seq::<char>::empty());
        } else {
            assert(name@.subrange(start as int, i + 1) == current.push(name@[i as int]));
            assert(done.push(current).update(done.len() as int, current.push(name@[i as int]))
                == done.push(current.push(name@[i as int])));
        }
        i += 1;
    }
    assert(name@.take(length as int) == name@);
    path.push(String::from_str(name.substring_char(start, length)));
    assert(path@.map_values(|segment: String| segment@) == split(name@, SEPARATOR)) by {
        let done = path@.drop_last().map_values(|segment: String| segment@);
        assert(path@.map_values(|segment: String| segment@) =~= done.push(
            name@.subrange(start as int, length as int),
        ));
    }
    path
}

} // verus!
