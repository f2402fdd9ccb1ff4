//! The order of text, by character code, and how zero-padded numerals follow it.
use crate::text::{digit, digits_value, fixed, is_digit};
use vstd::arithmetic::power::pow;
use vstd::prelude::*;

verus! {

/// Whether `a` and `b` agree before `i`, and at `i` either `a` ends or its
/// character is the smaller one.
pub open spec fn smaller_at(a: Seq<char>, b: Seq<char>, i: int) -> bool {
    &&& 0 <= i <= a.len()
    &&& i < b.len()
    &&& forall|j: int| 0 <= j < i ==> a[j] == b[j]
    &&& i < a.len() ==> (a[i] as u32) < (b[i] as u32)
}

/// The order of text: character by character, a proper prefix before what
/// extends it.
pub open spec fn text_lt(a: Seq<char>, b: Seq<char>) -> bool {
    exists|i: int| smaller_at(a, b, i)
}

/// No text is smaller than itself.
pub proof fn lemma_text_lt_irreflexive(a: Seq<char>)
    ensures
        !text_lt(a, a),
{
}

/// The order of text is transitive.
pub proof fn lemma_text_lt_transitive(a: Seq<char>, b: Seq<char>, c: Seq<char>)
    requires
        text_lt(a, b),
        text_lt(b, c),
    ensures
        text_lt(a, c),
{
    let i = choose|i: int| smaller_at(a, b, i);
    let k = choose|k: int| smaller_at(b, c, k);
    let m = if i <= k { i } else { k };
    assert(smaller_at(a, c, m));
}

/// Two texts are never each smaller than the other.
pub proof fn lemma_text_lt_asymmetric(a: Seq<char>, b: Seq<char>)
    requires
        text_lt(a, b),
    ensures
        !text_lt(b, a),
        a != b,
{
    if text_lt(b, a) {
        lemma_text_lt_transitive(a, b, a);
    }
}

/// The order does not see a common prefix.
pub proof fn lemma_text_lt_prefix(p: Seq<char>, a: Seq<char>, b: Seq<char>)
    ensures
        text_lt(p + a, p + b) <==> text_lt(a, b),
{
    if text_lt(a, b) {
        let i = choose|i: int| smaller_at(a, b, i);
        assert(smaller_at(p + a, p + b, p.len() + i));
    }
    if text_lt(p + a, p + b) {
        let i = choose|i: int| smaller_at(p + a, p + b, i);
        if i < p.len() {
            assert((p + a)[i] == (p + b)[i]);
        }
        assert forall|j: int| 0 <= j < i - p.len() implies a[j] == b[j] by {
            assert((p + a)[p.len() + j] == (p + b)[p.len() + j]);
        }
        assert(smaller_at(a, b, i - p.len()));
    }
}

/// A zero-padded numeral has the width asked for.
pub proof fn lemma_fixed_len(n: nat, width: nat)
    ensures
        fixed(n, width).len() == width,
    decreases width,
{
    if width > 0 {
        lemma_fixed_len(n / 10, (width - 1) as nat);
    }
}

/// Zero-padded numerals of one width are ordered as the numbers are.
pub proof fn lemma_fixed_order(a: nat, b: nat, width: nat)
    requires
        a < b < pow(10, width),
    ensures
        text_lt(fixed(a, width), fixed(b, width)),
    decreases width,
{
    reveal(pow);
    if width == 0 {
        assert(pow(10, 0) == 1);
    } else {
        let w = (width - 1) as nat;
        assert(pow(10, width) == 10 * pow(10, w));
        lemma_fixed_len(a / 10, w);
        lemma_fixed_len(b / 10, w);
        let x = fixed(a / 10, w);
        let y = fixed(b / 10, w);
        if a / 10 == b / 10 {
            assert(smaller_at(x.push(digit(a % 10)), y.push(digit(b % 10)), w as int));
        } else {
            assert(a / 10 < b / 10);
            lemma_fixed_order(a / 10, b / 10, w);
            let i = choose|i: int| smaller_at(x, y, i);
            assert(i < w);
            assert(smaller_at(x.push(digit(a % 10)), y.push(digit(b % 10)), i));
        }
    }
}

/// Zero-padded numerals of one width differ where the numbers do.
pub proof fn lemma_fixed_injective(a: nat, b: nat, width: nat)
    requires
        a < pow(10, width),
        b < pow(10, width),
        fixed(a, width) == fixed(b, width),
    ensures
        a == b,
{
    if a < b {
        lemma_fixed_order(a, b, width);
    } else if b < a {
        lemma_fixed_order(b, a, width);
    }
}

/// A zero-padded numeral reads back as the number.
pub proof fn lemma_fixed_value(n: nat, width: nat)
    requires
        n < pow(10, width),
    ensures
        digits_value(fixed(n, width)) == n,
        forall|i: int| 0 <= i < fixed(n, width).len() ==> is_digit(#[trigger] fixed(n, width)[i]),
    decreases width,
{
    reveal(pow);
    let s = fixed(n, width);
    if width == 0 {
        assert(pow(10, 0) == 1);
    } else {
        let w = (width - 1) as nat;
        assert(pow(10, width) == 10 * pow(10, w));
        lemma_fixed_value(n / 10, w);
        assert(s.drop_last() =~= fixed(n / 10, w));
        assert forall|i: int| 0 <= i < s.len() implies is_digit(#[trigger] s[i]) by {
            if i < s.len() - 1 {
                assert(s[i] == fixed(n / 10, w)[i]);
            }
        }
    }
}

/// Twenty digits are enough for a 64-bit number, ten for a 32-bit one.
pub proof fn lemma_widths()
    ensures
        u64::MAX < pow(10, 20),
        u32::MAX < pow(10, 10),
{
    reveal(pow);
    reveal_with_fuel(pow, 21);
}

} // verus!
