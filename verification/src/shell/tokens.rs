//! Lines cut into words.
use crate::text::{chars_of, texts};
use vstd::prelude::*;

verus! {

/// A line that is read up to some point.
#[verifier::ext_equal]
pub struct Scan {
    /// The words that are complete.
    pub tokens: Seq<Seq<char>>,
    /// What there is of the next word.
    pub word: Seq<char>,
    /// Whether the point lies between two quotes.
    pub quoted: bool,
}

impl Scan {
    /// A line of which nothing was read.
    pub open spec fn start() -> Scan {
        Scan { tokens: Seq::empty(), word: Seq::empty(), quoted: false }
    }

    /// The words, where the next one ends here.
    pub open spec fn cut(self) -> Seq<Seq<char>> {
        if self.word.len() == 0 {
            self.tokens
        } else {
            self.tokens.push(self.word)
        }
    }

    /// The line with one more character read: a quote is dropped, a blank
    /// between quotes is text, any other blank ends a word.
    pub open spec fn step(self, c: char) -> Scan {
        if c == '\'' {
            Scan { quoted: !self.quoted, ..self }
        } else if (c == ' ' || c == '\t') && !self.quoted {
            Scan { tokens: self.cut(), word: Seq::empty(), quoted: false }
        } else {
            Scan { word: self.word.push(c), ..self }
        }
    }

    /// The line with more characters read.
    pub open spec fn run(self, s: Seq<char>) -> Scan
        decreases s.len(),
    {
        if s.len() == 0 {
            self
        } else {
            self.run(s.drop_last()).step(s.last())
        }
    }
}

/// The words of a line.
pub open spec fn words(s: Seq<char>) -> Seq<Seq<char>> {
    Scan::start().run(s).cut()
}

/// Cuts a line into words.
pub fn tokenize(input: &str) -> (r: Vec<String>)
    ensures
        texts(r@) == words(input@),
{
    let chars = chars_of(input);
    let mut tokens: Vec<String> = Vec::new();
    let mut current: Vec<char> = Vec::new();
    let mut quoted = false;
    let mut i: usize = 0;
    assert(texts(tokens@) =~= Seq::<Seq<char>>::empty());
    assert(input@.take(0) =~= Seq::<char>::empty());
    while i < chars.len()
        invariant
            i <= chars@.len(),
            chars@ == input@,
            Scan::start().run(input@.take(i as int)) == (Scan {
                tokens: texts(tokens@),
                word: current@,
                quoted,
            }),
        decreases chars@.len() - i,
    {
        let c = chars[i];
        let ghost before = tokens@;
        proof {
            assert(input@.take(i + 1).drop_last() =~= input@.take(i as int));
            assert(input@.take(i + 1).last() == c);
        }
        if c == '\'' {
            quoted = !quoted;
        } else if (c == ' ' || c == '\t') && !quoted {
            if current.len() > 0 {
                tokens.push(crate::text::string_of(&current, 0, current.len()));
                assert(current@.subrange(0, current@.len() as int) =~= current@);
                assert(texts(tokens@) =~= texts(before).push(current@));
                current = Vec::new();
            }
            assert(current@ =~= Seq::<char>::empty());
        } else {
            current.push(c);
        }
        i = i + 1;
    }
    assert(input@.take(i as int) =~= input@);
    if current.len() > 0 {
        let ghost before = tokens@;
        tokens.push(crate::text::string_of(&current, 0, current.len()));
        assert(current@.subrange(0, current@.len() as int) =~= current@);
        assert(texts(tokens@) =~= texts(before).push(current@));
    }
    tokens
}

/// No word is empty.
pub proof fn law_words_are_not_empty(s: Seq<char>)
    ensures
        forall|i: int| 0 <= i < words(s).len() ==> (#[trigger] words(s)[i]).len() > 0,
{
    lemma_complete_words_are_not_empty(s);
}

proof fn lemma_complete_words_are_not_empty(s: Seq<char>)
    ensures
        forall|i: int|
            0 <= i < Scan::start().run(s).tokens.len() ==> (#[trigger] Scan::start().run(
                s,
            ).tokens[i]).len() > 0,
    decreases s.len(),
{
    if s.len() > 0 {
        lemma_complete_words_are_not_empty(s.drop_last());
        let x = Scan::start().run(s.drop_last());
        let y = Scan::start().run(s);
        assert(y == x.step(s.last()));
        assert forall|i: int| 0 <= i < y.tokens.len() implies (#[trigger] y.tokens[i]).len()
            > 0 by {
            if i < x.tokens.len() {
                assert(y.tokens[i] == x.tokens[i]);
            }
        }
    }
}

/// Reading on is reading the whole.
pub proof fn lemma_run_on(x: Scan, a: Seq<char>, b: Seq<char>)
    ensures
        x.run(a + b) == x.run(a).run(b),
    decreases b.len(),
{
    if b.len() == 0 {
        assert(a + b =~= a);
    } else {
        lemma_run_on(x, a, b.drop_last());
        assert((a + b).drop_last() =~= a + b.drop_last());
        assert((a + b).last() == b.last());
    }
}

/// Complete words do not bear on how a line is read on.
proof fn lemma_earlier_words_stay(x: Scan, earlier: Seq<Seq<char>>, s: Seq<char>)
    ensures
        (Scan { tokens: earlier + x.tokens, ..x }).run(s) == (Scan {
            tokens: earlier + x.run(s).tokens,
            ..x.run(s)
        }),
    decreases s.len(),
{
    if s.len() > 0 {
        lemma_earlier_words_stay(x, earlier, s.drop_last());
        let y = x.run(s.drop_last());
        assert((earlier + y.tokens).push(y.word) =~= earlier + y.tokens.push(y.word));
    }
}

/// A blank outside of quotes separates: what stands before it and what stands
/// after it are cut into words on their own.
pub proof fn law_blanks_separate(a: Seq<char>, blank: char, b: Seq<char>)
    requires
        blank == ' ' || blank == '\t',
        !Scan::start().run(a).quoted,
    ensures
        words(a.push(blank) + b) == words(a) + words(b),
{
    let x = Scan::start().run(a);
    lemma_run_on(Scan::start(), a.push(blank), b);
    assert(a.push(blank).drop_last() =~= a);
    let cut = x.step(blank);
    assert(cut == Scan::start().run(a.push(blank)));
    assert(cut.tokens =~= words(a) + Scan::start().tokens);
    lemma_earlier_words_stay(Scan::start(), words(a), b);
    assert(cut =~= Scan { tokens: words(a) + Scan::start().tokens, ..Scan::start() });
    let y = Scan::start().run(b);
    assert(cut.run(b) == (Scan { tokens: words(a) + y.tokens, ..y }));
    assert((words(a) + y.tokens).push(y.word) =~= words(a) + y.tokens.push(y.word));
}

/// Text without blanks and quotes is one word.
pub proof fn law_plain_text_is_one_word(s: Seq<char>)
    requires
        s.len() > 0,
        forall|i: int|
            0 <= i < s.len() ==> (#[trigger] s[i]) != ' ' && s[i] != '\t' && s[i] != '\'',
    ensures
        words(s) == seq![s],
        !Scan::start().run(s).quoted,
{
    lemma_plain_text(s);
    assert(Seq::<Seq<char>>::empty().push(s) =~= seq![s]);
}

proof fn lemma_plain_text(s: Seq<char>)
    requires
        forall|i: int|
            0 <= i < s.len() ==> (#[trigger] s[i]) != ' ' && s[i] != '\t' && s[i] != '\'',
    ensures
        Scan::start().run(s) == (Scan { word: s, ..Scan::start() }),
    decreases s.len(),
{
    if s.len() == 0 {
        assert(s =~= Seq::<char>::empty());
    } else {
        assert(s.last() == s[s.len() - 1]);
        assert forall|i: int| 0 <= i < s.drop_last().len() implies (
        #[trigger] s.drop_last()[i]) != ' ' && s.drop_last()[i] != '\t' && s.drop_last()[i]
            != '\'' by {
            assert(s.drop_last()[i] == s[i]);
        }
        lemma_plain_text(s.drop_last());
        assert(s.drop_last().push(s.last()) =~= s);
    }
}

/// What stands between quotes is one word, blanks and all.
pub proof fn law_quotes_hold_together(s: Seq<char>)
    requires
        s.len() > 0,
        !s.contains('\''),
    ensures
        words(seq!['\''] + s + seq!['\'']) == seq![s],
{
    let open = seq!['\''];
    lemma_run_on(Scan::start(), open + s, open);
    lemma_run_on(Scan::start(), open, s);
    assert(open.drop_last() =~= Seq::<char>::empty());
    assert(Scan::start().run(open.drop_last()) == Scan::start());
    let opened = Scan { quoted: true, ..Scan::start() };
    assert(Scan::start().run(open) == opened);
    lemma_quoted_text(opened, s);
    assert(opened.word + s =~= s);
    let inside = Scan { word: s, ..opened };
    assert(inside.run(open.drop_last()) == inside);
    assert(inside.run(open) == (Scan { quoted: false, ..inside }));
    assert(Seq::<Seq<char>>::empty().push(s) =~= seq![s]);
}

proof fn lemma_quoted_text(x: Scan, s: Seq<char>)
    requires
        x.quoted,
        !s.contains('\''),
    ensures
        x.run(s) == (Scan { word: x.word + s, ..x }),
    decreases s.len(),
{
    if s.len() == 0 {
        assert(x.word + s =~= x.word);
    } else {
        assert(s.last() != '\'') by {
            assert(s[s.len() - 1] == s.last());
        }
        assert(!s.drop_last().contains('\'')) by {
            if s.drop_last().contains('\'') {
                let i = choose|i: int| 0 <= i < s.drop_last().len() && s.drop_last()[i] == '\'';
                assert(s[i] == '\'');
            }
        }
        lemma_quoted_text(x, s.drop_last());
        assert((x.word + s.drop_last()).push(s.last()) =~= x.word + s);
    }
}

} // verus!
