//! What the first word of a line is for.
use crate::shell::command::{
    current_in, define_in, history_in, line_in, reads_as, told, transition_in, verb_in, Cmd,
};
use crate::shell::tokens::{law_blanks_separate, law_plain_text_is_one_word, words};
use crate::text::{
    ascii_lowered, folded, is_ascii_text, is_ascii_upper, is_space, lemma_trimmed_end, trimmed,
    trimmed_end, trimmed_start,
};
use vstd::prelude::*;

verus! {

/// Whether two verbs ask for the same: they are equal, or one is short for the
/// other.
pub open spec fn same_verb(v: Seq<char>, w: Seq<char>) -> bool {
    ||| (v == "transition"@ || v == "tr"@) && (w == "transition"@ || w == "tr"@)
    ||| (v == "current"@ || v == "cur"@) && (w == "current"@ || w == "cur"@)
    ||| (v == "history"@ || v == "hist"@) && (w == "history"@ || w == "hist"@)
    ||| (v == "define"@ || v == "def"@) && (w == "define"@ || w == "def"@)
}

/// Whether `x` is `v`, any of its letters in upper case.
pub open spec fn written_as(x: Seq<char>, v: Seq<char>) -> bool {
    &&& x.len() == v.len()
    &&& forall|i: int| #![trigger x[i]] 0 <= i < x.len() ==> ascii_lowered(x[i]) == v[i]
}

/// Whether a text consists of lower-case letters of ASCII.
spec fn is_plain(v: Seq<char>) -> bool {
    v.len() > 0 && forall|i: int| 0 <= i < v.len() ==> 0x61 <= (#[trigger] v[i]) as u32 <= 0x7a
}

proof fn lemma_verbs_are_plain(v: Seq<char>)
    requires
        same_verb(v, v),
    ensures
        is_plain(v),
{
    reveal_strlit("transition");
    reveal_strlit("tr");
    reveal_strlit("current");
    reveal_strlit("cur");
    reveal_strlit("history");
    reveal_strlit("hist");
    reveal_strlit("define");
    reveal_strlit("def");
}

/// The words of a line that begins with a verb are the verb and the words of the
/// rest, and the verb folds to what it is.
proof fn lemma_line(x: Seq<char>, v: Seq<char>, s: Seq<char>)
    requires
        is_plain(v),
        written_as(x, v),
    ensures
        folded(x) == v,
        line_in(x.push(' ') + s) == verb_in(v, seq![x] + words(trimmed_end(s))),
{
    assert forall|i: int| 0 <= i < x.len() implies (#[trigger] x[i]) as u32 <= 0x7a && 0x41
        <= x[i] as u32 && (x[i] as u32 >= 0x61 || is_ascii_upper(x[i])) by {
        assert(ascii_lowered(x[i]) == v[i]);
    }
    assert(is_ascii_text(x));
    assert(folded(x) =~= v);
    let line = x.push(' ') + s;
    assert(line[0] == x[0]);
    assert(trimmed_start(line) == line);
    lemma_trimmed_end(x.push(' '), s);
    assert(x.push(' ').drop_last() =~= x);
    assert(is_space(' '));
    assert(x.last() == x[x.len() - 1]);
    assert(!is_space(x.last()));
    assert(trimmed_end(x) == x);
    assert(trimmed_end(x.push(' ')) == trimmed_end(x));
    law_plain_text_is_one_word(x);
    let rest = trimmed_end(s);
    let t = trimmed(line);
    if rest.len() > 0 {
        assert(t == x.push(' ') + rest);
        law_blanks_separate(x, ' ', rest);
    } else {
        assert(t == x);
        assert(rest =~= Seq::<char>::empty());
        assert(words(rest) =~= Seq::<Seq<char>>::empty());
        assert(seq![x] + words(rest) =~= seq![x]);
    }
    assert(t[0] == x[0]);
    assert((seq![x] + words(rest))[0] == x);
}

/// A verb may be short or in full, and in upper or lower case: what a line asks
/// for is the same.
pub proof fn law_verbs_may_be_short_or_upper_case(
    x: Seq<char>,
    v: Seq<char>,
    y: Seq<char>,
    w: Seq<char>,
    s: Seq<char>,
)
    requires
        same_verb(v, w),
        written_as(x, v),
        written_as(y, w),
    ensures
        line_in(x.push(' ') + s) == line_in(y.push(' ') + s),
{
    lemma_verbs_are_plain(v);
    lemma_verbs_are_plain(w);
    lemma_line(x, v, s);
    lemma_line(y, w, s);
    lemma_same_reading(v, w, x, y, words(trimmed_end(s)));
}

/// A verb may be short or in full, and in upper or lower case: reading the lines
/// gives the same command, or the same complaint.
pub proof fn law_verbs_give_the_same_command(
    x: Seq<char>,
    v: Seq<char>,
    y: Seq<char>,
    w: Seq<char>,
    s: Seq<char>,
    a: Result<Cmd, String>,
    b: Result<Cmd, String>,
)
    requires
        same_verb(v, w),
        written_as(x, v),
        written_as(y, w),
        reads_as(line_in(x.push(' ') + s), a),
        reads_as(line_in(y.push(' ') + s), b),
    ensures
        told(a) == told(b),
{
    law_verbs_may_be_short_or_upper_case(x, v, y, w, s);
}

/// The words of a line come to the same, whatever stands for the verb.
proof fn lemma_same_reading(
    v: Seq<char>,
    w: Seq<char>,
    x: Seq<char>,
    y: Seq<char>,
    rest: Seq<Seq<char>>,
)
    requires
        same_verb(v, w),
    ensures
        verb_in(v, seq![x] + rest) == verb_in(w, seq![y] + rest),
{
    reveal_strlit("transition");
    reveal_strlit("tr");
    reveal_strlit("current");
    reveal_strlit("cur");
    reveal_strlit("history");
    reveal_strlit("hist");
    reveal_strlit("define");
    reveal_strlit("def");
    assert("transition"@.len() == 10 && "tr"@.len() == 2);
    assert("current"@.len() == 7 && "cur"@.len() == 3 && "current"@[0] == 'c' && "cur"@[0] == 'c');
    assert("history"@.len() == 7 && "hist"@.len() == 4 && "history"@[0] == 'h');
    assert("define"@.len() == 6 && "def"@.len() == 3 && "def"@[0] == 'd');
    let a = seq![x] + rest;
    let b = seq![y] + rest;
    assert(a.skip(1) =~= b.skip(1));
    assert(a.len() >= 3 ==> a.skip(3) =~= b.skip(3));
    assert(a.len() >= 4 ==> a.skip(4) =~= b.skip(4));
    assert forall|i: int| 1 <= i < a.len() implies a[i] == b[i] by {
        assert(a[i] == rest[i - 1]);
        assert(b[i] == rest[i - 1]);
    }
    assert(transition_in(a) == transition_in(b));
    assert(current_in(a) == current_in(b));
    assert(history_in(a) == history_in(b));
    assert(define_in(a) == define_in(b));
}

} // verus!
