//! Columns and rules of text.
use crate::clock::{date_and_time, instant_shown, Timestamp};
use crate::text::{chars_of, texts};
use vstd::prelude::*;

verus! {

/// A character, over and over.
pub open spec fn repeated(c: char, n: nat) -> Seq<char> {
    Seq::new(n, |i: int| c)
}

/// A character, over and over.
pub fn repeat_char(c: char, n: usize) -> (r: String)
    ensures
        r@ == repeated(c, n as nat),
{
    let mut r = String::new();
    let mut i: usize = 0;
    assert(r@ =~= repeated(c, 0));
    while i < n
        invariant
            i <= n,
            r@ == repeated(c, i as nat),
        decreases n - i,
    {
        r.push(c);
        assert(r@ =~= repeated(c, (i + 1) as nat));
        i = i + 1;
    }
    r
}

/// The blanks that a text lacks to be so wide.
pub open spec fn fill(s: Seq<char>, width: nat) -> Seq<char> {
    repeated(
        ' ',
        if s.len() < width {
            (width - s.len()) as nat
        } else {
            0
        },
    )
}

/// A text at the left of a column.
pub open spec fn left(s: Seq<char>, width: nat) -> Seq<char> {
    s + fill(s, width)
}

/// A text at the right of a column.
pub open spec fn right(s: Seq<char>, width: nat) -> Seq<char> {
    fill(s, width) + s
}

/// The blanks that a text lacks to be so wide.
fn filler(s: &str, width: usize) -> (r: String)
    ensures
        r@ == fill(s@, width as nat),
{
    let len: usize = chars_of(s).len();
    repeat_char(
        ' ',
        if len < width {
            width - len
        } else {
            0
        },
    )
}

/// Puts a text at the left of a column.
pub fn at_left(s: &str, width: usize) -> (r: String)
    ensures
        r@ == left(s@, width as nat),
{
    s.to_owned().concat(filler(s, width).as_str())
}

/// Puts a text at the right of a column.
pub fn at_right(s: &str, width: usize) -> (r: String)
    ensures
        r@ == right(s@, width as nat),
{
    filler(s, width).concat(s)
}

/// Adds a line.
pub fn add_line(lines: &mut Vec<String>, line: String)
    ensures
        texts(final(lines)@) == texts(old(lines)@).push(line@),
{
    let ghost before = lines@;
    lines.push(line);
    assert(texts(lines@) =~= texts(before).push(line@));
}

/// An instant, for people to read.
pub open spec fn time_shown(t: Timestamp) -> Seq<char> {
    if t.valid() {
        instant_shown(t.secs, t.nanos)
    } else {
        "(out of range)"@
    }
}

/// An instant, for people to read.
pub fn show_time(t: &Timestamp) -> (r: String)
    ensures
        r@ == time_shown(*t),
{
    match date_and_time(t) {
        Some(s) => s,
        None => "(out of range)".to_owned(),
    }
}

/// A column is as wide as it is meant to be, or as what stands in it; and what
/// stands in it is all there.
pub proof fn law_columns_line_up(s: Seq<char>, width: nat)
    ensures
        left(s, width).len() == (if s.len() < width {
            width
        } else {
            s.len()
        }),
        right(s, width).len() == left(s, width).len(),
        s.is_prefix_of(left(s, width)),
        s.is_suffix_of(right(s, width)),
{
    assert(s =~= left(s, width).subrange(0, s.len() as int));
    assert(s =~= right(s, width).subrange(
        right(s, width).len() - s.len(),
        right(s, width).len() as int,
    ));
}

} // verus!
