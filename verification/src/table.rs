//! Tables of text: cells of a width, side by side.
use vstd::prelude::*;
use vstd::string::StringExecFns;

verus! {

pub open spec fn spaces(n: nat) -> Seq<char> {
    Seq::new(n, |i: int| ' ')
}

/// The spaces that a text leaves in a cell.
pub open spec fn gap(text: Seq<char>, width: nat) -> Seq<char> {
    if text.len() < width {
        spaces((width - text.len()) as nat)
    } else {
        Seq::empty()
    }
}

/// A text at the left of a cell. A text that is too long is not cut off.
pub open spec fn left(text: Seq<char>, width: nat) -> Seq<char> {
    text + gap(text, width)
}

/// A text at the right of a cell. A text that is too long is not cut off.
pub open spec fn right(text: Seq<char>, width: nat) -> Seq<char> {
    gap(text, width) + text
}

fn fill(text: &str, width: usize) -> (result: String)
    ensures
        result@ == gap(text@, width as nat),
{
    let length: usize = text.unicode_len();
    let mut result = String::new();
    let mut i: usize = length;
    assert(result@ =~= Seq::empty());
    while i < width
        invariant
            length == text@.len(),
            length <= i,
            length <= width ==> i <= width,
            length >= width ==> i == length,
            result@ == spaces((i - length) as nat),
        decreases width - i,
    {
        result.push(' ');
        i = i + 1;
        assert(result@ =~= spaces((i - length) as nat));
    }
    result
}

pub fn to_left(text: &str, width: usize) -> (result: String)
    ensures
        result@ == left(text@, width as nat),
{
    let mut result = text.to_owned();
    result.append(fill(text, width).as_str());
    result
}

pub fn to_right(text: &str, width: usize) -> (result: String)
    ensures
        result@ == right(text@, width as nat),
{
    let mut result = fill(text, width);
    result.append(text);
    result
}

/// Adds a cell with its text at the left.
pub fn add_left(line: &mut String, text: &str, width: usize)
    ensures
        final(line)@ == old(line)@ + " "@ + left(text@, width as nat),
{
    line.append(" ");
    line.append(to_left(text, width).as_str());
}

/// Adds a cell with its text at the right.
pub fn add_right(line: &mut String, text: &str, width: usize)
    ensures
        final(line)@ == old(line)@ + " "@ + right(text@, width as nat),
{
    line.append(" ");
    line.append(to_right(text, width).as_str());
}

/// Adds the last cell, which has no width.
pub fn add_last(line: &mut String, text: &str)
    ensures
        final(line)@ == old(line)@ + " "@ + text@,
{
    line.append(" ");
    line.append(text);
}

/// A cell is as wide as asked for, unless its text is longer. It begins or ends with its text, which
/// is never cut off, and is blank otherwise.
pub proof fn a_cell_holds_its_text(text: Seq<char>, width: nat)
    ensures
        text.len() <= width ==> left(text, width).len() == width && right(text, width).len() == width,
        text.len() > width ==> left(text, width) == text && right(text, width) == text,
        left(text, width).take(text.len() as int) == text,
        forall|i: int| text.len() <= i < left(text, width).len() ==> #[trigger] left(text, width)[i] == ' ',
        right(text, width).skip(right(text, width).len() - text.len()) == text,
        forall|i: int|
            0 <= i < right(text, width).len() - text.len() ==> #[trigger] right(text, width)[i] == ' ',
{
    assert(left(text, width).take(text.len() as int) =~= text);
    assert(right(text, width).skip(right(text, width).len() - text.len()) =~= text);
    if text.len() > width {
        assert(left(text, width) =~= text);
        assert(right(text, width) =~= text);
    }
}

} // verus!
