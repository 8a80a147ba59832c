//! Tidying text: punctuation blanked, white space collapsed and trimmed.
//!
//! A word character is one that is alphanumeric and not white space. The
//! tidied form of a text is made of its runs of word characters, joined by
//! single spaces. Which characters are alphanumeric or white space is for
//! `char` to say.

use vstd::prelude::*;

verus! {

/// Whether a character is alphanumeric, as `char::is_alphanumeric` says.
/// Nothing is known of it here.
pub uninterp spec fn alphanumeric(c: char) -> bool;

/// Whether a character is white space, as `char::is_whitespace` says, for
/// the characters of which nothing is stated here.
pub uninterp spec fn white_space(c: char) -> bool;

/// Whether a character is white space. The space, the tab, the line feed
/// and the no-break space are; of the others `char` decides.
pub open spec fn is_whitespace(c: char) -> bool {
    c == ' ' || c == '\t' || c == '\n' || c == '\u{a0}' || white_space(c)
}

/// Whether a character belongs to a word of the normal form: it is
/// alphanumeric and not white space.
pub open spec fn is_word_char(c: char) -> bool {
    alphanumeric(c) && !is_whitespace(c)
}

/// A character after punctuation has been blanked: itself if it is
/// alphanumeric or white space, a space otherwise.
pub open spec fn blanked(c: char) -> char {
    if !alphanumeric(c) && !is_whitespace(c) {
        ' '
    } else {
        c
    }
}

/// The text with every character blanked.
pub open spec fn blank_punctuation(s: Seq<char>) -> Seq<char> {
    Seq::new(s.len(), |k: int| blanked(s[k]))
}

/// Whether position `k` is marked.
pub open spec fn marked(marks: Seq<bool>, k: int) -> bool {
    0 <= k < marks.len() && marks[k]
}

/// The maximal runs of marked characters of a text, in order. A position
/// beyond the marks counts as not marked.
pub open spec fn runs(s: Seq<char>, marks: Seq<bool>) -> Seq<Seq<char>>
    decreases s.len(),
{
    if s.len() == 0 {
        Seq::empty()
    } else if !marked(marks, s.len() - 1) {
        runs(s.drop_last(), marks)
    } else if marked(marks, s.len() - 2) {
        let before = runs(s.drop_last(), marks);
        before.drop_last().push(before.last().push(s.last()))
    } else {
        runs(s.drop_last(), marks).push(seq![s.last()])
    }
}

/// The words of a text: its maximal runs of characters that are not white
/// space, in order.
pub open spec fn words(s: Seq<char>) -> Seq<Seq<char>> {
    runs(s, Seq::new(s.len(), |k: int| !is_whitespace(s[k])))
}

/// The words joined by single spaces.
pub open spec fn joined(words: Seq<Seq<char>>) -> Seq<char>
    decreases words.len(),
{
    if words.len() == 0 {
        Seq::empty()
    } else if words.len() == 1 {
        words[0]
    } else {
        joined(words.drop_last()).push(' ') + words.last()
    }
}

/// The runs of marked characters of a text, joined by single spaces.
pub open spec fn collapsed(s: Seq<char>, marks: Seq<bool>) -> Seq<char> {
    joined(runs(s, marks))
}

/// For each character of a text, whether it is a word character.
pub open spec fn word_marks(s: Seq<char>) -> Seq<bool> {
    Seq::new(s.len(), |k: int| is_word_char(s[k]))
}

/// The text with punctuation blanked, runs of white space collapsed to one
/// space and no white space at either end.
pub open spec fn tidied(s: Seq<char>) -> Seq<char> {
    joined(words(blank_punctuation(s)))
}

/// Whether a text is tidy: made of word characters and single spaces, with
/// no space at either end.
pub open spec fn tidy(t: Seq<char>) -> bool {
    &&& forall|k: int| 0 <= k < t.len() ==> #[trigger] t[k] == ' ' || is_word_char(t[k])
    &&& forall|k: int| 0 <= k < t.len() - 1 ==> !(#[trigger] t[k] == ' ' && t[k + 1] == ' ')
    &&& t.len() > 0 ==> t[0] != ' ' && t.last() != ' '
}

/// Trusted: calls `char::is_alphanumeric`. Its answer is taken to depend on
/// the character alone.
#[verifier::external_body]
fn char_is_alphanumeric(c: char) -> (b: bool)
    ensures
        b == alphanumeric(c),
{
    c.is_alphanumeric()
}

/// Trusted: calls `char::is_whitespace`. Its answer is taken to depend on
/// the character alone, and to be true of the four characters that the
/// documentation of std shows as white space: the space, the line feed and
/// the no-break space under `char::is_whitespace`, the tab under
/// `str::split_whitespace` and `str::trim`, which go by the same property.
#[verifier::external_body]
fn char_is_whitespace(c: char) -> (b: bool)
    ensures
        b == (c == ' ' || c == '\t' || c == '\n' || c == '\u{a0}' || white_space(c)),
{
    c.is_whitespace()
}

/// Trusted: calls `String::push`, which appends the character to the end of
/// the string.
#[verifier::external_body]
fn push_char(s: &mut String, c: char)
    ensures
        final(s)@ == old(s)@.push(c),
{
    s.push(c)
}

/// Whether every word is non-empty and made of characters of which `p` holds.
spec fn words_of(w: Seq<Seq<char>>, p: spec_fn(char) -> bool) -> bool {
    &&& forall|k: int| 0 <= k < w.len() ==> (#[trigger] w[k]).len() > 0
    &&& forall|k: int, m: int| 0 <= k < w.len() && 0 <= m < w[k].len() ==> p(#[trigger] w[k][m])
}

/// The runs of a text are non-empty and made of its marked characters, and a
/// text whose last character is marked has a run.
proof fn lemma_runs(s: Seq<char>, marks: Seq<bool>, p: spec_fn(char) -> bool)
    requires
        forall|n: int| 0 <= n < s.len() && marked(marks, n) ==> p(#[trigger] s[n]),
    ensures
        words_of(runs(s, marks), p),
        s.len() > 0 && marked(marks, s.len() - 1) ==> runs(s, marks).len() > 0,
    decreases s.len(),
{
    if s.len() > 0 {
        lemma_runs(s.drop_last(), marks, p);
        let before = runs(s.drop_last(), marks);
        if !marked(marks, s.len() - 1) {
        } else if marked(marks, s.len() - 2) {
            let grown = before.drop_last().push(before.last().push(s.last()));
            assert(runs(s, marks) == grown);
            assert forall|k: int| 0 <= k < grown.len() implies (#[trigger] grown[k]).len() > 0 by {
                if k < grown.len() - 1 {
                    assert(grown[k] == before[k]);
                }
            }
            assert forall|k: int, m: int|
                0 <= k < grown.len() && 0 <= m < grown[k].len() implies p(#[trigger] grown[k][m]) by {
                if k < grown.len() - 1 {
                    assert(grown[k] == before[k]);
                    assert(p(before[k][m]));
                } else if m < before.last().len() {
                    assert(grown[k][m] == before.last()[m]);
                    assert(p(before[before.len() - 1][m]));
                }
            }
        } else {
            let grown = before.push(seq![s.last()]);
            assert(runs(s, marks) == grown);
            assert forall|k: int, m: int|
                0 <= k < grown.len() && 0 <= m < grown[k].len() implies p(#[trigger] grown[k][m]) by {
                if k < before.len() {
                    assert(grown[k] == before[k]);
                    assert(p(before[k][m]));
                }
            }
        }
    }
}

/// The runs depend on the marks within the text and on the marked characters
/// only.
proof fn lemma_runs_agree(s: Seq<char>, marks: Seq<bool>, t: Seq<char>, others: Seq<bool>)
    requires
        s.len() == t.len(),
        forall|k: int| 0 <= k < s.len() ==> marked(marks, k) == marked(others, k),
        forall|k: int| 0 <= k < s.len() && marked(marks, k) ==> s[k] == t[k],
    ensures
        runs(s, marks) == runs(t, others),
    decreases s.len(),
{
    if s.len() > 0 {
        lemma_runs_agree(s.drop_last(), marks, t.drop_last(), others);
    }
}

/// Non-empty words join to a non-empty text.
proof fn lemma_joined_len(w: Seq<Seq<char>>)
    requires
        forall|k: int| 0 <= k < w.len() ==> (#[trigger] w[k]).len() > 0,
    ensures
        joined(w).len() == 0 <==> w.len() == 0,
    decreases w.len(),
{
    if w.len() > 1 {
        lemma_joined_len(w.drop_last());
    }
}

/// A character added to the last word is a character added to the joined text.
proof fn lemma_joined_grows(w: Seq<Seq<char>>, c: char)
    requires
        w.len() > 0,
    ensures
        joined(w.drop_last().push(w.last().push(c))) == joined(w).push(c),
{
    let grown = w.drop_last().push(w.last().push(c));
    if w.len() == 1 {
        assert(joined(grown) == grown[0]);
    } else {
        assert(grown.drop_last() =~= w.drop_last());
        assert(joined(grown) =~= joined(w).push(c));
    }
}

/// How the collapsed text grows with the text: a character that is not
/// marked adds nothing, a marked one is added to the run before it, or
/// begins a run of its own, after a space unless it is the first.
pub proof fn collapsed_grows_with_the_text(s: Seq<char>, marks: Seq<bool>, c: char)
    ensures
        collapsed(s.push(c), marks) == if !marked(marks, s.len() as int) {
            collapsed(s, marks)
        } else if marked(marks, s.len() - 1) {
            collapsed(s, marks).push(c)
        } else if collapsed(s, marks).len() == 0 {
            seq![c]
        } else {
            collapsed(s, marks).push(' ').push(c)
        },
{
    let longer = s.push(c);
    assert(longer.drop_last() =~= s);
    lemma_runs(s, marks, |x: char| true);
    lemma_joined_len(runs(s, marks));
    if marked(marks, s.len() as int) {
        if marked(marks, s.len() - 1) {
            lemma_joined_grows(runs(s, marks), c);
        } else {
            let grown = runs(s, marks).push(seq![c]);
            assert(runs(longer, marks) == grown);
            assert(grown.drop_last() =~= runs(s, marks));
            if runs(s, marks).len() > 0 {
                assert(joined(grown) =~= joined(runs(s, marks)).push(' ').push(c));
            } else {
                assert(joined(grown) =~= seq![c]);
            }
        }
    }
}

/// Tidying a text is collapsing it by its word characters: what blanking
/// turns into white space, and what is white space, is what is no word
/// character.
pub proof fn tidied_is_collapsed(s: Seq<char>)
    ensures
        tidied(s) == collapsed(s, word_marks(s)),
{
    let blank = blank_punctuation(s);
    let solid = Seq::new(blank.len(), |k: int| !is_whitespace(blank[k]));
    lemma_runs_agree(blank, solid, s, word_marks(s));
}

/// How the tidied text changes when one character is added at the end.
proof fn lemma_tidied_step(s: Seq<char>, c: char)
    ensures
        tidied(s.push(c)) == if !is_word_char(c) {
            tidied(s)
        } else if s.len() > 0 && is_word_char(s.last()) {
            tidied(s).push(c)
        } else if tidied(s).len() == 0 {
            seq![c]
        } else {
            tidied(s).push(' ').push(c)
        },
{
    let longer = s.push(c);
    tidied_is_collapsed(s);
    tidied_is_collapsed(longer);
    lemma_runs_agree(s, word_marks(s), s, word_marks(longer));
    collapsed_grows_with_the_text(s, word_marks(longer), c);
}

/// Joining words made of word characters gives a tidy text.
proof fn lemma_joined_is_tidy(w: Seq<Seq<char>>)
    requires
        words_of(w, |c: char| is_word_char(c)),
    ensures
        tidy(joined(w)),
    decreases w.len(),
{
    if w.len() == 1 {
        assert forall|k: int| 0 <= k < w[0].len() implies is_word_char(#[trigger] w[0][k]) by {}
    } else if w.len() > 1 {
        let front = w.drop_last();
        assert forall|k: int| 0 <= k < front.len() implies (#[trigger] front[k]).len() > 0 by {
            assert(front[k] == w[k]);
        }
        assert forall|k: int, m: int|
            0 <= k < front.len() && 0 <= m < front[k].len() implies is_word_char(
            #[trigger] front[k][m],
        ) by {
            assert(front[k] == w[k]);
            assert(is_word_char(w[k][m]));
        }
        lemma_joined_is_tidy(front);
        lemma_joined_len(front);
        let head = joined(front);
        let tail = w.last();
        let all = joined(w);
        assert(all == head.push(' ') + tail);
        assert forall|k: int| 0 <= k < tail.len() implies is_word_char(#[trigger] tail[k]) by {
            assert(is_word_char(w[w.len() - 1][k]));
        }
        assert forall|k: int| 0 <= k < all.len() implies #[trigger] all[k] == ' ' || is_word_char(
            all[k],
        ) by {
            if k < head.len() {
                assert(all[k] == head[k]);
            } else if k > head.len() {
                assert(all[k] == tail[k - head.len() - 1]);
            }
        }
        assert forall|k: int| 0 <= k < all.len() - 1 implies !(#[trigger] all[k] == ' ' && all[k + 1]
            == ' ') by {
            if k + 1 < head.len() {
                assert(all[k] == head[k]);
                assert(all[k + 1] == head[k + 1]);
            } else if k + 1 == head.len() {
                assert(all[k] == head.last());
            } else {
                assert(all[k + 1] == tail[k - head.len()]);
            }
        }
        assert(all[0] == head[0]);
        assert(all.last() == tail.last());
    }
}

/// A tidied text is tidy: word characters and single spaces, with no space
/// at either end.
pub proof fn tidied_is_tidy(s: Seq<char>)
    ensures
        tidy(tidied(s)),
{
    tidied_is_collapsed(s);
    lemma_runs(s, word_marks(s), |c: char| is_word_char(c));
    lemma_joined_is_tidy(runs(s, word_marks(s)));
}

/// Whether a text is tidy but for a space it may end in.
spec fn nearly_tidy(t: Seq<char>) -> bool {
    &&& forall|k: int| 0 <= k < t.len() ==> #[trigger] t[k] == ' ' || is_word_char(t[k])
    &&& forall|k: int| 0 <= k < t.len() - 1 ==> !(#[trigger] t[k] == ' ' && t[k + 1] == ' ')
    &&& t.len() > 0 ==> t[0] != ' '
}

/// Tidying a nearly tidy text only removes the space at its end.
proof fn lemma_tidied_of_nearly_tidy(t: Seq<char>)
    requires
        nearly_tidy(t),
    ensures
        tidied(t) == if t.len() > 0 && t.last() == ' ' {
            t.drop_last()
        } else {
            t
        },
    decreases t.len(),
{
    if t.len() == 0 {
        assert(blank_punctuation(t) =~= Seq::<char>::empty());
    } else {
        let front = t.drop_last();
        let c = t.last();
        assert(t =~= front.push(c));
        assert(nearly_tidy(front)) by {
            assert forall|k: int| 0 <= k < front.len() implies #[trigger] front[k] == ' '
                || is_word_char(front[k]) by {
                assert(front[k] == t[k]);
            }
            assert forall|k: int| 0 <= k < front.len() - 1 implies !(#[trigger] front[k] == ' '
                && front[k + 1] == ' ') by {
                assert(front[k] == t[k]);
                assert(front[k + 1] == t[k + 1]);
            }
            if front.len() > 0 {
                assert(front[0] == t[0]);
            }
        }
        lemma_tidied_of_nearly_tidy(front);
        lemma_tidied_step(front, c);
        if front.len() > 0 {
            assert(front.last() == t[t.len() - 2]);
            assert(t[t.len() - 2] == ' ' || is_word_char(t[t.len() - 2]));
        }
        if front.len() > 1 {
            assert(front[0] == t[0]);
        }
        if is_word_char(c) {
            if front.len() > 0 && !is_word_char(front.last()) {
                assert(front.last() == ' ');
                assert(front.len() > 1);
                assert(front.drop_last().push(' ') =~= front);
            }
        } else {
            assert(c == ' ');
            assert(t[0] != ' ');
            assert(front.len() > 0);
            assert(!(t[t.len() - 2] == ' ' && t[t.len() - 2 + 1] == ' '));
        }
    }
}

/// The space, the tab, the line feed and the no-break space are no word
/// characters, whatever else they are: they part words.
pub proof fn stated_white_space_parts_words()
    ensures
        !is_word_char(' '),
        !is_word_char('\t'),
        !is_word_char('\n'),
        !is_word_char('\u{a0}'),
{
}

/// Tidying is idempotent: a tidied text is left as it is.
pub proof fn tidied_is_idempotent(s: Seq<char>)
    ensures
        tidied(tidied(s)) == tidied(s),
{
    tidied_is_tidy(s);
    lemma_tidied_of_nearly_tidy(tidied(s));
}

/// A tidy text is its own tidied form.
pub proof fn tidy_is_fixed(t: Seq<char>)
    requires
        tidy(t),
    ensures
        tidied(t) == t,
{
    lemma_tidied_of_nearly_tidy(t);
}

/// Marks the word characters of a text.
pub fn mark_words(text: &str) -> (marks: Vec<bool>)
    ensures
        marks@ == word_marks(text@),
{
    let mut marks: Vec<bool> = Vec::new();
    for c in it: text.chars()
        invariant
            it.seq() == text@,
            marks@ == word_marks(text@.take(it.index())),
    {
        marks.push(char_is_alphanumeric(c) && !char_is_whitespace(c));
        assert(marks@ =~= word_marks(text@.take(it.index() + 1)));
    }
    assert(text@.take(text@.len() as int) =~= text@);
    marks
}

/// Joins the runs of marked characters of a text by single spaces.
/// `marks[k]` says whether character `k` is marked; a character without a
/// mark is not.
pub fn collapse(text: &str, marks: &Vec<bool>) -> (joined: String)
    ensures
        joined@ == collapsed(text@, marks@),
{
    let mut joined = String::new();
    let mut in_run = false;
    let mut started = false;
    let mut k: usize = 0;
    for c in it: text.chars()
        invariant
            it.seq() == text@,
            joined@ == collapsed(text@.take(it.index()), marks@),
            in_run == marked(marks@, it.index() - 1),
            started == (joined@.len() > 0),
            k == if it.index() < marks@.len() {
                it.index()
            } else {
                marks@.len() as int
            },
    {
        proof {
            assert(text@.take(it.index() + 1) =~= text@.take(it.index()).push(c));
            collapsed_grows_with_the_text(text@.take(it.index()), marks@, c);
        }
        let mark = k < marks.len() && marks[k];
        if k < marks.len() {
            k += 1;
        }
        if mark {
            if !in_run && started {
                push_char(&mut joined, ' ');
            }
            push_char(&mut joined, c);
            started = true;
        }
        in_run = mark;
    }
    assert(text@.take(text@.len() as int) =~= text@);
    joined
}

} // verus!
