//! Reading one field out of the block of an advisory.
//!
//! A block gives a field on a line of its own: the field's name, a colon
//! and a space, and then the value, as in `Crate:     anymap`. The value is
//! what follows on that line, without the white space around it; nothing is
//! asked of what it holds. A line gives a field only if it begins with the
//! field's name, so a name that occurs inside the value of another field
//! is not taken for a field. Where several lines give one field, the first
//! of them counts.
use crate::split::{lines_of, split_lines, texts};
use crate::text::{chars_of, string_of_range, trim, trim_bounds};
use vstd::prelude::*;

verus! {

/// What a line that gives the field `name` begins with: the name, a colon
/// and a space.
pub open spec fn field_head(name: Seq<char>) -> Seq<char> {
    name + seq![':', ' ']
}

/// Whether `line` begins with `head`.
pub open spec fn begins_with(line: Seq<char>, head: Seq<char>) -> bool {
    head.len() <= line.len() && line.subrange(0, head.len() as int) == head
}

/// The value that `line` gives the field `name`: what follows the head of
/// the field, without the white space around it. A line that does not begin
/// with the head gives the field no value.
pub open spec fn value_in_line(line: Seq<char>, name: Seq<char>) -> Option<Seq<char>> {
    if begins_with(line, field_head(name)) {
        Some(trim(line.skip(field_head(name).len() as int)))
    } else {
        None
    }
}

/// The value that the first of `lines` to give the field `name` gives it.
pub open spec fn value_in_lines(lines: Seq<Seq<char>>, name: Seq<char>) -> Option<Seq<char>>
    decreases lines.len(),
{
    if lines.len() == 0 {
        None
    } else {
        match value_in_line(lines.first(), name) {
            Some(value) => Some(value),
            None => value_in_lines(lines.drop_first(), name),
        }
    }
}

/// The value of the field `name` in `block`: the value that the first line
/// of the block to give the field gives it, and `None` where no line does.
pub open spec fn field_value(block: Seq<char>, name: Seq<char>) -> Option<Seq<char>> {
    value_in_lines(split_lines(block, '\n', '\r'), name)
}

/// The text in an optional string.
pub open spec fn text_of(value: Option<String>) -> Option<Seq<char>> {
    match value {
        Some(text) => Some(text@),
        None => None,
    }
}

/// The value found in `lines` is that of a line which gives the field, and
/// no line before that one gives it; no value is found only where no line
/// gives the field.
pub proof fn lemma_value_in_lines(lines: Seq<Seq<char>>, name: Seq<char>)
    ensures
        match value_in_lines(lines, name) {
            Some(value) => exists|i: int|
                {
                    &&& 0 <= i < lines.len()
                    &&& value_in_line(#[trigger] lines[i], name) == Some(value)
                    &&& forall|j: int| 0 <= j < i ==> value_in_line(#[trigger] lines[j], name) is None
                },
            None => forall|i: int|
                0 <= i < lines.len() ==> value_in_line(#[trigger] lines[i], name) is None,
        },
    decreases lines.len(),
{
    if lines.len() > 0 {
        let rest = lines.drop_first();
        match value_in_line(lines.first(), name) {
            Some(value) => {
                assert(value_in_line(lines[0], name) == Some(value));
            },
            None => {
                lemma_value_in_lines(rest, name);
                match value_in_lines(rest, name) {
                    Some(value) => {
                        let i = choose|i: int|
                            {
                                &&& 0 <= i < rest.len()
                                &&& value_in_line(#[trigger] rest[i], name) == Some(value)
                                &&& forall|j: int|
                                    0 <= j < i ==> value_in_line(#[trigger] rest[j], name) is None
                            };
                        assert(lines[i + 1] == rest[i]);
                        assert forall|j: int| 0 <= j < i + 1 implies value_in_line(
                            #[trigger] lines[j],
                            name,
                        ) is None by {
                            if j > 0 {
                                assert(lines[j] == rest[j - 1]);
                            }
                        }
                    },
                    None => {
                        assert forall|i: int| 0 <= i < lines.len() implies value_in_line(
                            #[trigger] lines[i],
                            name,
                        ) is None by {
                            if i > 0 {
                                assert(lines[i] == rest[i - 1]);
                            }
                        }
                    },
                }
            },
        }
    }
}

/// The head of the field `name`, as characters.
pub fn head_of(name: &str) -> (head: Vec<char>)
    ensures
        head@ == field_head(name@),
{
    let mut head = chars_of(name);
    head.push(':');
    head.push(' ');
    assert(head@ == name@ + seq![':', ' ']);
    head
}

/// Decides whether `line` begins with `head`.
pub fn line_begins_with(line: &Vec<char>, head: &Vec<char>) -> (begins: bool)
    ensures
        begins == begins_with(line@, head@),
{
    if head.len() > line.len() {
        return false;
    }
    let mut i: usize = 0;
    while i < head.len()
        invariant
            i <= head.len() <= line.len(),
            line@.subrange(0, i as int) == head@.subrange(0, i as int),
        decreases head.len() - i,
    {
        if line[i] != head[i] {
            assert(line@.subrange(0, head@.len() as int)[i as int] != head@[i as int]);
            return false;
        }
        assert(line@.subrange(0, i + 1) == line@.subrange(0, i as int).push(line@[i as int]));
        assert(head@.subrange(0, i + 1) == head@.subrange(0, i as int).push(head@[i as int]));
        i += 1;
    }
    assert(head@.subrange(0, head@.len() as int) == head@);
    true
}

/// Reads the value that `line` gives the field with the head `head`.
pub fn value_of_line(line: &Vec<char>, head: &Vec<char>) -> (value: Option<String>)
    ensures
        text_of(value) == if begins_with(line@, head@) {
            Some(trim(line@.skip(head@.len() as int)))
        } else {
            None
        },
{
    if !line_begins_with(line, head) {
        return None;
    }
    let mut rest: Vec<char> = Vec::new();
    let mut i: usize = head.len();
    while i < line.len()
        invariant
            head.len() <= i <= line.len(),
            rest@ == line@.subrange(head@.len() as int, i as int),
        decreases line.len() - i,
    {
        rest.push(line[i]);
        i += 1;
    }
    assert(rest@ == line@.skip(head@.len() as int));
    let (from, to) = trim_bounds(&rest);
    Some(string_of_range(&rest, from, to))
}

/// Reads the field `name` out of the lines of a block.
pub fn find_in_lines(lines: &Vec<Vec<char>>, name: &str) -> (value: Option<String>)
    ensures
        text_of(value) == value_in_lines(texts(lines@), name@),
{
    let head = head_of(name);
    let ghost all = texts(lines@);
    let mut i: usize = 0;
    assert(all.skip(0) == all);
    while i < lines.len()
        invariant
            i <= lines.len(),
            all == texts(lines@),
            head@ == field_head(name@),
            value_in_lines(all, name@) == value_in_lines(all.skip(i as int), name@),
        decreases lines.len() - i,
    {
        let value = value_of_line(&lines[i], &head);
        assert(all.skip(i as int).first() == lines@[i as int]@);
        if value.is_some() {
            return value;
        }
        assert(all.skip(i as int).drop_first() == all.skip(i + 1));
        i += 1;
    }
    None
}

/// Reads the field `name` out of the block `text`: the value on the first
/// line that begins with the name, a colon and a space.
pub fn find_field(name: &str, text: &str) -> (value: Option<String>)
    ensures
        text_of(value) == field_value(text@, name@),
{
    let chars = chars_of(text);
    let lines = lines_of(&chars);
    find_in_lines(&lines, name)
}

} // verus!
