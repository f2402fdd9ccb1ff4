//! What is done to texts, in terms of their characters.
use crate::text::{
    contains_text, decimal_of, is_digits, is_space, join_from, law_numbers_read_back,
    lemma_decimal_value, lemma_first_of, parse_u32, parse_u64, parts, same_texts, split_text,
    starts_with, texts, trim, trimmed_end, trimmed_start,
};
use crate::text::{first_of, is_digit};
use vstd::prelude::*;

verus! {

/// What is left without the white space before it.
proof fn lemma_start(s: Seq<char>) -> (n: int)
    ensures
        0 <= n <= s.len(),
        trimmed_start(s) == s.skip(n),
        forall|i: int| 0 <= i < n ==> is_space(#[trigger] s[i]),
        n < s.len() ==> !is_space(s[n]),
    decreases s.len(),
{
    if s.len() > 0 && is_space(s[0]) {
        let n = lemma_start(s.skip(1));
        assert(s.skip(1).skip(n) =~= s.skip(n + 1));
        assert forall|i: int| 0 <= i < n + 1 implies is_space(#[trigger] s[i]) by {
            if i > 0 {
                assert(s.skip(1)[i - 1] == s[i]);
            }
        }
        n + 1
    } else {
        assert(s.skip(0) =~= s);
        0
    }
}

/// What is left without the white space after it.
proof fn lemma_end(s: Seq<char>) -> (n: int)
    ensures
        0 <= n <= s.len(),
        trimmed_end(s) == s.take(n),
        forall|i: int| n <= i < s.len() ==> is_space(#[trigger] s[i]),
        n > 0 ==> !is_space(s[n - 1]),
    decreases s.len(),
{
    if s.len() > 0 && is_space(s.last()) {
        let n = lemma_end(s.drop_last());
        assert(s.drop_last().take(n) =~= s.take(n));
        assert forall|i: int| n <= i < s.len() implies is_space(#[trigger] s[i]) by {
            if i < s.len() - 1 {
                assert(s.drop_last()[i] == s[i]);
            }
        }
        n
    } else {
        assert(s.take(s.len() as int) =~= s);
        s.len() as int
    }
}

/// Trimming takes away white space at both ends, all of it and nothing else.
pub proof fn law_trimming_takes_white_space(s: &str, r: String) -> (at: int)
    requires
        call_ensures(trim, (s,), r),
    ensures
        0 <= at && at + r@.len() <= s@.len(),
        r@ == s@.subrange(at, at + r@.len()),
        forall|i: int|
            0 <= i < s@.len() && !(at <= i < at + r@.len()) ==> is_space(#[trigger] s@[i]),
        r@.len() > 0 ==> !is_space(r@[0]) && !is_space(r@.last()),
{
    let a = lemma_start(s@);
    let t = s@.skip(a);
    let n = lemma_end(t);
    assert(r@ == t.take(n));
    assert(r@ =~= s@.subrange(a, a + n));
    assert forall|i: int| 0 <= i < s@.len() && !(a <= i < a + n) implies is_space(
        #[trigger] s@[i],
    ) by {
        if i >= a {
            assert(t[i - a] == s@[i]);
        }
    }
    a
}

/// The parts of a text have none of the separator.
proof fn lemma_parts(s: Seq<char>, c: char)
    ensures
        parts(s, c).len() > 0,
        forall|i: int, k: int|
            0 <= i < parts(s, c).len() && 0 <= k < parts(s, c)[i].len()
                ==> #[trigger] parts(s, c)[i][k] != c,
        parts(s, c).len() == 1 ==> parts(s, c)[0] == s,
        parts(s, c).len() > 1 ==> s == parts(s, c)[0] + seq![c] + s.skip(
            parts(s, c)[0].len() as int + 1,
        ) && parts(s, c).skip(1) == parts(s.skip(parts(s, c)[0].len() as int + 1), c),
    decreases s.len(),
{
    lemma_first_of(s, c);
    let n = first_of(s, c) as int;
    if n < s.len() {
        let rest = s.skip(n + 1);
        lemma_parts(rest, c);
        let p = parts(s, c);
        assert(p == seq![s.take(n)] + parts(rest, c));
        assert(p.skip(1) =~= parts(rest, c));
        assert(s =~= s.take(n) + seq![c] + rest);
        assert forall|i: int, k: int| 0 <= i < p.len()
            && 0 <= k < p[i].len() implies #[trigger] p[i][k]
            != c by {
            if i > 0 {
                assert(p[i] == parts(rest, c)[i - 1]);
            }
        }
    }
}

/// Cutting a text leaves parts without the character that it is cut at, and the first
/// part is what stands before the first of them.
pub proof fn law_cutting_leaves_no_separator(s: &str, c: char, r: Vec<String>)
    requires
        call_ensures(split_text, (s, c), r),
    ensures
        r@.len() > 0,
        forall|i: int, k: int|
            0 <= i < r@.len() && 0 <= k < r@[i]@.len() ==> #[trigger] r@[i]@[k] != c,
        r@.len() == 1 ==> r@[0]@ == s@,
        r@.len() > 1 ==> (r@[0]@ + seq![c]).is_prefix_of(s@),
{
    lemma_parts(s@, c);
    let p = parts(s@, c);
    assert(p.len() == r@.len());
    assert forall|i: int, k: int| 0 <= i < r@.len()
        && 0 <= k < r@[i]@.len() implies #[trigger] r@[i]@[k]
        != c by {
        assert(p[i] == r@[i]@);
        assert(p[i][k] != c);
    }
    assert(p[0] == r@[0]@);
}

/// Putting one more text to others adds the separator and the text.
pub proof fn law_joining_adds_the_separator(
    a: Vec<String>,
    b: Vec<String>,
    x: Seq<char>,
    separator: &str,
    r: String,
    s: String,
)
    requires
        call_ensures(join_from, (&a, 0usize, separator), r),
        call_ensures(join_from, (&b, 0usize, separator), s),
        texts(b@) == texts(a@).push(x),
    ensures
        a@.len() == 0 ==> r@.len() == 0 && s@ == x,
        a@.len() > 0 ==> s@ == r@ + separator@ + x,
{
    let t = texts(a@);
    assert(t.skip(0) =~= t);
    assert(t.push(x).skip(0) =~= t.push(x));
    assert(t.push(x).drop_last() =~= t);
    assert(t.len() == a@.len());
}

/// A number is written in decimal digits, a small one in one, and is read back
/// as itself.
pub proof fn law_numbers_are_written_in_digits(
    n: u64,
    text: String,
    given: &str,
    back: Option<u64>,
    small: Option<u32>,
)
    requires
        call_ensures(decimal_of, (n,), text),
        given@ == text@,
        call_ensures(parse_u64, (given,), back),
        call_ensures(parse_u32, (given,), small),
    ensures
        text@.len() > 0,
        forall|i: int| 0 <= i < text@.len() ==> 48 <= (#[trigger] text@[i]) as u32 <= 57,
        n < 10 ==> text@.len() == 1 && text@[0] as u32 == 48 + n,
        back == Some(n),
        small is Some <==> n <= u32::MAX,
        small matches Some(m) ==> m == n,
{
    law_numbers_read_back(n as nat);
    lemma_decimal_value(n as nat);
    assert forall|i: int| 0 <= i < text@.len() implies 48 <= (#[trigger] text@[i]) as u32 <= 57 by {
        assert(is_digit(text@[i]));
    }
}

/// What is read as a number has digits only, but for a plus sign before them.
pub proof fn law_only_digits_are_read(s: &str, r: Option<u64>)
    requires
        call_ensures(parse_u64, (s,), r),
    ensures
        r is Some ==> s@.len() > 0 && forall|i: int|
            0 <= i < s@.len() ==> (48 <= (#[trigger] s@[i]) as u32 <= 57) || (i == 0 && s@[0] == '+'
                && s@.len() > 1),
{
    if r is Some {
        let t = s@;
        let digits = if t.len() > 0 && t[0] == '+' {
            t.skip(1)
        } else {
            t
        };
        assert(is_digits(digits));
        assert forall|i: int| 0 <= i < t.len() implies (48 <= (#[trigger] t[i]) as u32 <= 57)
            || (i == 0
            && t[0] == '+' && t.len() > 1) by {
            if t[0] == '+' {
                if i > 0 {
                    assert(digits[i - 1] == t[i]);
                    assert(is_digit(digits[i - 1]));
                }
            } else {
                assert(is_digit(digits[i]));
            }
        }
    }
}

/// Finding a text among others, comparing lists and looking at the front of a text.
pub proof fn law_texts_are_compared(
    v: Vec<String>,
    w: Vec<String>,
    s: &str,
    prefix: &str,
    found: bool,
    same: bool,
    starts: bool,
)
    requires
        call_ensures(contains_text, (&v, s), found),
        call_ensures(same_texts, (&v, &w), same),
        call_ensures(starts_with, (s, prefix), starts),
    ensures
        found <==> exists|i: int| 0 <= i < v@.len() && (#[trigger] v@[i])@ == s@,
        same ==> v@.len() == w@.len() && forall|i: int|
            0 <= i < v@.len() ==> (#[trigger] v@[i])@ == w@[i]@,
        starts <==> prefix@.len() <= s@.len() && s@.take(prefix@.len() as int) == prefix@,
{
    let t = texts(v@);
    if t.contains(s@) {
        let i = t.index_of(s@);
        assert(v@[i]@ == s@);
    }
    if exists|i: int| 0 <= i < v@.len() && (#[trigger] v@[i])@ == s@ {
        let i = choose|i: int| 0 <= i < v@.len() && (#[trigger] v@[i])@ == s@;
        assert(t[i] == s@);
    }
    if same {
        assert(t.len() == v@.len() && texts(w@).len() == w@.len());
        assert forall|i: int| 0 <= i < v@.len() implies (#[trigger] v@[i])@ == w@[i]@ by {
            assert(t[i] == texts(w@)[i]);
        }
    }
    assert(prefix@.len() <= s@.len() ==> s@.take(prefix@.len() as int) == s@.subrange(
        0,
        prefix@.len() as int,
    ));
}

} // verus!
