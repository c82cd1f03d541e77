//! Lines of text: joining them into one string and finding them again.

use vstd::prelude::*;

verus! {

/// The lines joined by a line feed between neighbours, with none at the end.
/// No lines at all give the empty text.
pub open spec fn join_lines(lines: Seq<Seq<char>>) -> Seq<char>
    decreases lines.len(),
{
    if lines.len() == 0 {
        Seq::empty()
    } else if lines.len() == 1 {
        lines[0]
    } else {
        join_lines(lines.drop_last()) + seq!['\n'] + lines.last()
    }
}

/// The text cut at every line feed. There is always at least one line: the
/// empty text is one empty line.
pub open spec fn split_lines(text: Seq<char>) -> Seq<Seq<char>>
    decreases text.len(),
{
    if text.len() == 0 {
        seq![Seq::empty()]
    } else if text.last() == '\n' {
        split_lines(text.drop_last()).push(Seq::empty())
    } else {
        let before = split_lines(text.drop_last());
        before.drop_last().push(before.last().push(text.last()))
    }
}

/// Whether the line holds no line feed.
pub open spec fn single_line(line: Seq<char>) -> bool {
    forall|k: int| 0 <= k < line.len() ==> line[k] != '\n'
}

/// Appending text without a line feed only lengthens the last line.
pub proof fn lemma_split_append(text: Seq<char>, tail: Seq<char>)
    requires
        single_line(tail),
    ensures
        split_lines(text).len() >= 1,
        split_lines(text + tail) == split_lines(text).drop_last().push(
            split_lines(text).last() + tail,
        ),
    decreases tail.len(),
{
    lemma_split_nonempty(text);
    let lines = split_lines(text);
    if tail.len() == 0 {
        assert(text + tail =~= text);
        assert(lines.last() + tail =~= lines.last());
        assert(lines.drop_last().push(lines.last()) =~= lines);
    } else {
        let shorter = tail.drop_last();
        assert(single_line(shorter));
        lemma_split_append(text, shorter);
        assert((text + tail).drop_last() =~= text + shorter);
        assert((text + tail).last() == tail.last());
        let before = split_lines(text + shorter);
        assert(before.drop_last() =~= lines.drop_last());
        assert(before.last().push(tail.last()) =~= lines.last() + tail);
    }
}

/// Cutting a text always gives at least one line.
pub proof fn lemma_split_nonempty(text: Seq<char>)
    ensures
        split_lines(text).len() >= 1,
    decreases text.len(),
{
    if text.len() > 0 {
        lemma_split_nonempty(text.drop_last());
    }
}

/// Joining lines and cutting the text again gives the lines back, as long as
/// there is at least one line and no line holds a line feed.
pub proof fn lemma_split_join(lines: Seq<Seq<char>>)
    requires
        lines.len() >= 1,
        forall|i: int| 0 <= i < lines.len() ==> single_line(#[trigger] lines[i]),
    ensures
        split_lines(join_lines(lines)) == lines,
    decreases lines.len(),
{
    let empty = Seq::<char>::empty();
    if lines.len() == 1 {
        lemma_split_append(empty, lines[0]);
        assert(empty + lines[0] =~= lines[0]);
        assert(split_lines(empty) =~= seq![empty]);
        assert(seq![empty].drop_last().push(empty + lines[0]) =~= lines);
    } else {
        let front = lines.drop_last();
        lemma_split_join(front);
        let head = join_lines(front) + seq!['\n'];
        assert(head.drop_last() =~= join_lines(front));
        assert(split_lines(head) == front.push(empty));
        lemma_split_append(head, lines.last());
        assert(front.push(empty).drop_last() =~= front);
        assert(empty + lines.last() =~= lines.last());
        assert(front.push(lines.last()) =~= lines);
    }
}

} // verus!
