//! Cutting text into lines and into blocks, and joining parts again.
//!
//! Both cuts are stated as one pass over the text from left to right, which
//! is also how a stream is read: what has been cut so far never changes
//! when more text arrives.
use crate::text::push_all;
use vstd::prelude::*;

verus! {

/// The texts that a vector of character vectors holds.
pub open spec fn texts(v: Seq<Vec<char>>) -> Seq<Seq<char>> {
    v.map_values(|t: Vec<char>| t@)
}

/// The texts that a vector of strings holds.
pub open spec fn strings(v: Seq<String>) -> Seq<Seq<char>> {
    v.map_values(|t: String| t@)
}

/// `line` without one carriage return at its end, if it has one there.
pub open spec fn strip_cr<T>(line: Seq<T>, cr: T) -> Seq<T> {
    if line.len() > 0 && line.last() == cr {
        line.drop_last()
    } else {
        line
    }
}

/// The state of a line reader that has taken in `s`: the lines it has
/// completed, and what it holds of the line that is still open. A line is
/// completed by `nl`; a `cr` just before that `nl` belongs to the line
/// ending.
pub open spec fn line_scan<T>(s: Seq<T>, nl: T, cr: T) -> (Seq<Seq<T>>, Seq<T>)
    decreases s.len(),
{
    if s.len() == 0 {
        (Seq::empty(), Seq::empty())
    } else {
        let (lines, open) = line_scan(s.drop_last(), nl, cr);
        if s.last() == nl {
            (lines.push(strip_cr(open, cr)), Seq::empty())
        } else {
            (lines, open.push(s.last()))
        }
    }
}

/// The lines of `s`: the completed ones and, where `s` does not end in a
/// line ending, the rest as a last line. That last line keeps a carriage
/// return at its end.
pub open spec fn split_lines<T>(s: Seq<T>, nl: T, cr: T) -> Seq<Seq<T>> {
    let (lines, open) = line_scan(s, nl, cr);
    if open.len() > 0 {
        lines.push(open)
    } else {
        lines
    }
}

/// The state of a block reader that has taken in `s`: the blocks it has
/// completed, and what it holds of the block that is still open. A block is
/// completed by the second of two line feeds in a row; neither of the two
/// belongs to a block.
pub open spec fn block_scan(s: Seq<char>) -> (Seq<Seq<char>>, Seq<char>)
    decreases s.len(),
{
    if s.len() == 0 {
        (Seq::empty(), Seq::empty())
    } else {
        let (blocks, open) = block_scan(s.drop_last());
        if s.last() == '\n' && open.len() > 0 && open.last() == '\n' {
            (blocks.push(open.drop_last()), Seq::empty())
        } else {
            (blocks, open.push(s.last()))
        }
    }
}

/// The blocks of `s`, which a blank line separates: the pieces between the
/// occurrences of two line feeds in a row, found from left to right without
/// overlap. There is always at least one block.
pub open spec fn split_blocks(s: Seq<char>) -> Seq<Seq<char>> {
    let (blocks, open) = block_scan(s);
    blocks.push(open)
}

/// The parts in order with `sep` between each two of them.
pub open spec fn join<T>(parts: Seq<Seq<T>>, sep: Seq<T>) -> Seq<T>
    decreases parts.len(),
{
    if parts.len() == 0 {
        Seq::empty()
    } else if parts.len() == 1 {
        parts[0]
    } else {
        join(parts.drop_last(), sep) + sep + parts.last()
    }
}

/// `parts` without its first `n` items, and empty where it has no more
/// than `n`.
pub open spec fn without_first<T>(parts: Seq<T>, n: nat) -> Seq<T> {
    if n >= parts.len() {
        Seq::empty()
    } else {
        parts.skip(n as int)
    }
}

/// Nothing is lost when a text is cut into blocks: the blocks with a blank
/// line between each two of them are the text again.
pub proof fn lemma_join_blocks(s: Seq<char>)
    ensures
        join(split_blocks(s), seq!['\n', '\n']) == s,
    decreases s.len(),
{
    let sep = seq!['\n', '\n'];
    if s.len() == 0 {
        assert(split_blocks(s) == seq![Seq::<char>::empty()]);
    } else {
        let before = s.drop_last();
        lemma_join_blocks(before);
        let (blocks, open) = block_scan(before);
        assert(join(blocks.push(open), sep) == before);
        if blocks.len() == 0 {
            assert(blocks.push(open)[0] == open);
        } else {
            assert(blocks.push(open).drop_last() == blocks);
        }
        if s.last() == '\n' && open.len() > 0 && open.last() == '\n' {
            let closed = blocks.push(open.drop_last());
            let all = closed.push(Seq::<char>::empty());
            assert(all.drop_last() == closed);
            assert(split_blocks(s) == all);
            if blocks.len() == 0 {
                assert(closed[0] == open.drop_last());
                assert(join(closed, sep) == open.drop_last());
            } else {
                assert(closed.drop_last() == blocks);
                assert(join(closed, sep) == join(blocks, sep) + sep + open.drop_last());
            }
            assert(join(all, sep) == join(closed, sep) + sep + Seq::<char>::empty());
            assert(open == open.drop_last().push('\n'));
            assert(s == before.push('\n'));
            assert(join(all, sep) == s);
        } else {
            let all = blocks.push(open.push(s.last()));
            assert(split_blocks(s) == all);
            if blocks.len() == 0 {
                assert(all[0] == open.push(s.last()));
            } else {
                assert(all.drop_last() == blocks);
            }
            assert(s == before.push(s.last()));
            assert(join(all, sep) == s);
        }
    }
}

/// No block holds a blank line.
pub proof fn lemma_blocks_hold_no_blank_line(s: Seq<char>)
    ensures
        forall|b: int, i: int|
            #![trigger split_blocks(s)[b][i]]
            0 <= b < split_blocks(s).len() && 0 <= i && i + 1 < split_blocks(s)[b].len() ==> !(
            split_blocks(s)[b][i] == '\n' && split_blocks(s)[b][i + 1] == '\n'),
    decreases s.len(),
{
    if s.len() > 0 {
        lemma_blocks_hold_no_blank_line(s.drop_last());
        let (blocks, open) = block_scan(s.drop_last());
        let earlier = split_blocks(s.drop_last());
        assert(earlier == blocks.push(open));
        let now = split_blocks(s);
        assert forall|b: int, i: int|
            0 <= b < now.len() && 0 <= i && i + 1 < now[b].len() implies !(#[trigger] now[b][i]
            == '\n' && now[b][i + 1] == '\n') by {
            if s.last() == '\n' && open.len() > 0 && open.last() == '\n' {
                if b < blocks.len() {
                    assert(now[b] == earlier[b]);
                    assert(earlier[b][i] == now[b][i]);
                } else if b == blocks.len() {
                    assert(now[b] == open.drop_last());
                    assert(earlier[b][i] == now[b][i]);
                }
            } else {
                if b < blocks.len() {
                    assert(now[b] == earlier[b]);
                    assert(earlier[b][i] == now[b][i]);
                } else {
                    assert(now[b] == open.push(s.last()));
                    if i + 1 < open.len() {
                        assert(earlier[b][i] == now[b][i]);
                    }
                }
            }
        }
    }
}

/// A text without a line feed is one open line: the line reader completes
/// nothing and holds all of it.
pub proof fn lemma_line_scan_of_one_line<T>(s: Seq<T>, nl: T, cr: T)
    requires
        !s.contains(nl),
    ensures
        line_scan(s, nl, cr) == (Seq::<Seq<T>>::empty(), s),
    decreases s.len(),
{
    if s.len() > 0 {
        let before = s.drop_last();
        if before.contains(nl) {
            let i = choose|i: int| 0 <= i < before.len() && before[i] == nl;
            assert(s[i] == nl);
        }
        lemma_line_scan_of_one_line(before, nl, cr);
        assert(s[s.len() - 1] != nl);
        assert(before.push(s.last()) == s);
    }
}

/// A text is cut at its first line feed: its lines are the line before
/// that line feed, without a carriage return at its end, and then the lines
/// of what follows the line feed.
pub proof fn lemma_lines_after_first<T>(first: Seq<T>, rest: Seq<T>, nl: T, cr: T)
    requires
        !first.contains(nl),
    ensures
        line_scan(first.push(nl) + rest, nl, cr) == (
            seq![strip_cr(first, cr)] + line_scan(rest, nl, cr).0,
            line_scan(rest, nl, cr).1,
        ),
        split_lines(first.push(nl) + rest, nl, cr) == seq![strip_cr(first, cr)] + split_lines(
            rest,
            nl,
            cr,
        ),
    decreases rest.len(),
{
    let whole = first.push(nl) + rest;
    let line = strip_cr(first, cr);
    if rest.len() == 0 {
        assert(whole == first.push(nl));
        assert(whole.drop_last() == first);
        lemma_line_scan_of_one_line(first, nl, cr);
        assert(Seq::<Seq<T>>::empty().push(line) == seq![line] + Seq::<Seq<T>>::empty());
    } else {
        let before = rest.drop_last();
        lemma_lines_after_first(first, before, nl, cr);
        assert(whole.drop_last() == first.push(nl) + before);
        assert(whole.last() == rest.last());
        let (lines, open) = line_scan(before, nl, cr);
        if rest.last() == nl {
            assert((seq![line] + lines).push(strip_cr(open, cr)) == seq![line] + lines.push(
                strip_cr(open, cr),
            ));
        }
    }
    let (lines, open) = line_scan(rest, nl, cr);
    if open.len() > 0 {
        assert((seq![line] + lines).push(open) == seq![line] + lines.push(open));
    }
}

/// A text without a line feed is one line, and no line where it is empty.
pub proof fn lemma_lines_of_one_line<T>(s: Seq<T>, nl: T, cr: T)
    requires
        !s.contains(nl),
    ensures
        split_lines(s, nl, cr) == if s.len() > 0 {
            seq![s]
        } else {
            Seq::<Seq<T>>::empty()
        },
{
    lemma_line_scan_of_one_line(s, nl, cr);
    assert(Seq::<Seq<T>>::empty().push(s) == seq![s]);
}

/// The line reader keeps line feeds out of what it holds: neither a
/// completed line nor the open one has any.
pub proof fn lemma_line_scan_holds_no_newline<T>(s: Seq<T>, nl: T, cr: T)
    ensures
        forall|l: int|
            0 <= l < line_scan(s, nl, cr).0.len() ==> !(#[trigger] line_scan(s, nl, cr).0[l])
                .contains(nl),
        !line_scan(s, nl, cr).1.contains(nl),
    decreases s.len(),
{
    if s.len() > 0 {
        lemma_line_scan_holds_no_newline(s.drop_last(), nl, cr);
        let (lines, open) = line_scan(s.drop_last(), nl, cr);
        let now = line_scan(s, nl, cr);
        if s.last() == nl {
            let line = strip_cr(open, cr);
            if line.contains(nl) {
                let i = choose|i: int| 0 <= i < line.len() && line[i] == nl;
                assert(open[i] == nl);
            }
            assert forall|l: int| 0 <= l < now.0.len() implies !(#[trigger] now.0[l]).contains(
                nl,
            ) by {
                if l < lines.len() {
                    assert(now.0[l] == lines[l]);
                }
            }
        } else {
            if now.1.contains(nl) {
                let i = choose|i: int| 0 <= i < now.1.len() && now.1[i] == nl;
                if i < open.len() {
                    assert(open[i] == nl);
                }
            }
        }
    }
}

/// No line holds a line feed.
pub proof fn lemma_lines_hold_no_newline<T>(s: Seq<T>, nl: T, cr: T)
    ensures
        forall|l: int|
            0 <= l < split_lines(s, nl, cr).len() ==> !(#[trigger] split_lines(s, nl, cr)[l])
                .contains(nl),
{
    lemma_line_scan_holds_no_newline(s, nl, cr);
    let (lines, open) = line_scan(s, nl, cr);
    let all = split_lines(s, nl, cr);
    assert forall|l: int| 0 <= l < all.len() implies !(#[trigger] all[l]).contains(nl) by {
        if l < lines.len() {
            assert(all[l] == lines[l]);
        }
    }
}

/// Cuts `v` into its blocks.
pub fn blocks_of(v: &Vec<char>) -> (blocks: Vec<Vec<char>>)
    ensures
        texts(blocks@) == split_blocks(v@),
        blocks.len() >= 1,
{
    let mut blocks: Vec<Vec<char>> = Vec::new();
    let mut open: Vec<char> = Vec::new();
    let mut i: usize = 0;
    assert(texts(blocks@) == Seq::<Seq<char>>::empty());
    assert(v@.take(0) == Seq::<char>::empty());
    while i < v.len()
        invariant
            i <= v.len(),
            block_scan(v@.take(i as int)) == (texts(blocks@), open@),
        decreases v.len() - i,
    {
        let c = v[i];
        let ghost before = texts(blocks@);
        assert(v@.take(i + 1).drop_last() == v@.take(i as int));
        if c == '\n' && open.len() > 0 && open[open.len() - 1] == '\n' {
            let _ = open.pop();
            blocks.push(open);
            open = Vec::new();
            assert(texts(blocks@) == before.push(blocks@.last()@));
        } else {
            open.push(c);
        }
        i += 1;
    }
    assert(v@.take(v@.len() as int) == v@);
    let ghost before = texts(blocks@);
    blocks.push(open);
    assert(texts(blocks@) == before.push(blocks@.last()@));
    blocks
}

/// Cuts `v` into its lines.
pub fn lines_of(v: &Vec<char>) -> (lines: Vec<Vec<char>>)
    ensures
        texts(lines@) == split_lines(v@, '\n', '\r'),
{
    let mut lines: Vec<Vec<char>> = Vec::new();
    let mut open: Vec<char> = Vec::new();
    let mut i: usize = 0;
    assert(texts(lines@) == Seq::<Seq<char>>::empty());
    assert(v@.take(0) == Seq::<char>::empty());
    while i < v.len()
        invariant
            i <= v.len(),
            line_scan(v@.take(i as int), '\n', '\r') == (texts(lines@), open@),
        decreases v.len() - i,
    {
        let c = v[i];
        let ghost before = texts(lines@);
        assert(v@.take(i + 1).drop_last() == v@.take(i as int));
        if c == '\n' {
            if open.len() > 0 && open[open.len() - 1] == '\r' {
                let _ = open.pop();
            }
            lines.push(open);
            open = Vec::new();
            assert(texts(lines@) == before.push(lines@.last()@));
        } else {
            open.push(c);
        }
        i += 1;
    }
    assert(v@.take(v@.len() as int) == v@);
    if open.len() > 0 {
        let ghost before = texts(lines@);
        lines.push(open);
        assert(texts(lines@) == before.push(lines@.last()@));
    }
    lines
}

/// Joins the parts from index `from` on, with `sep` between each two.
pub fn join_from(parts: &Vec<Vec<char>>, from: usize, sep: &Vec<char>) -> (joined: Vec<char>)
    ensures
        joined@ == join(without_first(texts(parts@), from as nat), sep@),
{
    let mut joined: Vec<char> = Vec::new();
    if from >= parts.len() {
        return joined;
    }
    let ghost rest = texts(parts@).skip(from as int);
    let mut i: usize = from;
    while i < parts.len()
        invariant
            from <= i <= parts.len(),
            from < parts.len(),
            rest == texts(parts@).skip(from as int),
            joined@ == join(rest.take(i - from), sep@),
        decreases parts.len() - i,
    {
        if i > from {
            push_all(&mut joined, sep);
        }
        push_all(&mut joined, &parts[i]);
        assert(rest.take(i - from + 1).drop_last() == rest.take(i - from));
        assert(rest.take(i - from + 1).last() == parts@[i as int]@);
        if i == from {
            assert(rest.take(1)[0] == parts@[i as int]@);
        }
        i += 1;
    }
    assert(rest.take(rest.len() as int) == rest);
    joined
}

} // verus!
