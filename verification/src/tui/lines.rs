//! Lines of text that are put together.

use vstd::prelude::*;
use vstd::string::*;

use crate::text;
use crate::text::Text;

verus! {

/// Adds a line.
pub fn push_line(lines: &mut Vec<String>, line: String)
    ensures
        text::texts(final(lines)@) == text::texts(old(lines)@).push(line@),
{
    let ghost before = lines@;
    lines.push(line);
    assert(text::texts(lines@) =~= text::texts(before).push(line@));
}

/// Adds a line made of two parts.
pub fn push_labelled(lines: &mut Vec<String>, head: &str, tail: &str)
    ensures
        text::texts(final(lines)@) == text::texts(old(lines)@).push(head@ + tail@),
{
    push_line(lines, text::concat2(head, tail));
}

/// Adds an empty line.
pub fn push_empty(lines: &mut Vec<String>)
    ensures
        text::texts(final(lines)@) == text::texts(old(lines)@).push(Seq::<char>::empty()),
{
    let empty = String::new();
    assert(empty@ =~= Seq::<char>::empty());
    push_line(lines, empty);
}

/// No lines.
pub fn no_lines() -> (r: Vec<String>)
    ensures
        text::texts(r@) == Seq::<Text>::empty(),
{
    let r: Vec<String> = Vec::new();
    assert(text::texts(r@) =~= Seq::<Text>::empty());
    r
}

} // verus!
