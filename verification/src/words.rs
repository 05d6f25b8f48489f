//! From text to words and terms.
//!
//! A word is a run of characters between blanks. Its term is what search
//! compares: the letters and digits of the word in lower case, punctuation
//! dropped. Words without a term, and the commonest English words, are not
//! indexed.
use vstd::prelude::*;
use crate::text::{
    chars_of, is_ascii_alphanumeric, is_ascii_alphanumeric_char, is_space, is_space_char, lower,
    same_chars, texts, to_lower,
};

verus! {

/// Characters that are kept in a term: ASCII letters and digits, and what
/// lies beyond ASCII except the general punctuation block (dashes, curly
/// quotes, ellipsis).
pub open spec fn is_term_char(c: char) -> bool {
    is_ascii_alphanumeric(c) || (c as u32 >= 0x80 && !(0x2000 <= c as u32 <= 0x206F))
}

pub fn is_term_character(c: char) -> (r: bool)
    ensures
        r == is_term_char(c),
{
    let n: u32 = c as u32;
    is_ascii_alphanumeric_char(c) || (n >= 0x80 && !(0x2000 <= n && n <= 0x206F))
}

/// A word of a text: where it starts, where it ends (the index after its
/// last character), and its term.
pub struct Word {
    pub start: int,
    pub end: int,
    pub term: Seq<char>,
}

/// State of the pass that splits a text: the words that have ended, and
/// the word that is being read, if one is.
pub struct Scan {
    pub done: Seq<Word>,
    pub open: bool,
    pub start: int,
    pub term: Seq<char>,
}

/// The pass takes the character `c` at index `i`.
pub open spec fn scan_step(st: Scan, i: int, c: char) -> Scan {
    if is_space(c) {
        if st.open {
            Scan {
                done: st.done.push(Word { start: st.start, end: i, term: st.term }),
                open: false,
                start: 0,
                term: Seq::empty(),
            }
        } else {
            st
        }
    } else {
        Scan {
            done: st.done,
            open: true,
            start: if st.open {
                st.start
            } else {
                i
            },
            term: if is_term_char(c) {
                st.term.push(lower(c))
            } else {
                st.term
            },
        }
    }
}

/// The pass over a whole text.
pub open spec fn scan(s: Seq<char>) -> Scan
    decreases s.len(),
{
    if s.len() == 0 {
        Scan { done: Seq::empty(), open: false, start: 0, term: Seq::empty() }
    } else {
        scan_step(scan(s.drop_last()), s.len() - 1, s.last())
    }
}

/// The words of a text, in order.
pub open spec fn words(s: Seq<char>) -> Seq<Word> {
    let st = scan(s);
    if st.open {
        st.done.push(Word { start: st.start, end: s.len() as int, term: st.term })
    } else {
        st.done
    }
}

/// Whether `start..end` is a run of characters without a blank that
/// begins the text or follows a blank.
pub open spec fn is_run(s: Seq<char>, start: int, end: int) -> bool {
    &&& 0 <= start < end <= s.len()
    &&& forall|i: int| start <= i < end ==> !is_space(#[trigger] s[i])
    &&& (start == 0 || is_space(s[start - 1]))
}

/// Whether `w` is bounded as a word of `s`: a run without a blank, with a
/// blank or an end of the text on either side.
pub open spec fn is_word_of(s: Seq<char>, w: Word) -> bool {
    is_run(s, w.start, w.end) && (w.end == s.len() || is_space(s[w.end]))
}

/// Whether the words follow one another with space between them.
pub open spec fn in_order(ws: Seq<Word>) -> bool {
    forall|j: int, k: int| 0 <= j < k < ws.len() ==> (#[trigger] ws[j]).end < (#[trigger] ws[k]).start
}

/// What holds of the pass at every point: the words that have ended are
/// words of the text so far and are followed by a blank; the word being
/// read, if one is, is a run up to the end.
spec fn scan_shape(s: Seq<char>) -> bool {
    let st = scan(s);
    &&& forall|k: int|
        0 <= k < st.done.len() ==> is_run(s, (#[trigger] st.done[k]).start, st.done[k].end)
            && st.done[k].end < s.len() && is_space(s[st.done[k].end])
    &&& in_order(st.done)
    &&& st.open ==> is_run(s, st.start, s.len() as int) && (st.done.len() > 0
        ==> st.done.last().end < st.start)
    &&& !st.open ==> s.len() == 0 || is_space(s.last())
}

proof fn lemma_scan_shape(s: Seq<char>)
    ensures
        scan_shape(s),
    decreases s.len(),
{
    if s.len() > 0 {
        let p = s.drop_last();
        let c = s.last();
        let before = scan(p);
        let after = scan(s);
        let n = p.len() as int;
        lemma_scan_shape(p);
        assert forall|i: int| 0 <= i < n implies #[trigger] s[i] == p[i] by {}
        assert forall|k: int| 0 <= k < before.done.len() implies is_run(
            s,
            (#[trigger] before.done[k]).start,
            before.done[k].end,
        ) && before.done[k].end < s.len() && is_space(s[before.done[k].end]) by {
            let w = before.done[k];
            assert(is_run(p, w.start, w.end));
            assert forall|i: int| w.start <= i < w.end implies !is_space(#[trigger] s[i]) by {
                assert(s[i] == p[i]);
            }
            assert(s[w.end] == p[w.end]);
            if w.start > 0 {
                assert(s[w.start - 1] == p[w.start - 1]);
            }
        }
        if is_space(c) {
            if before.open {
                let w = Word { start: before.start, end: n, term: before.term };
                assert(after.done == before.done.push(w));
                assert(is_run(p, w.start, n));
                assert forall|i: int| w.start <= i < w.end implies !is_space(#[trigger] s[i]) by {
                    assert(s[i] == p[i]);
                }
                if w.start > 0 {
                    assert(s[w.start - 1] == p[w.start - 1]);
                }
                assert(is_run(s, w.start, w.end));
                assert forall|k: int| 0 <= k < after.done.len() implies is_run(
                    s,
                    (#[trigger] after.done[k]).start,
                    after.done[k].end,
                ) && after.done[k].end < s.len() && is_space(s[after.done[k].end]) by {
                    if k < before.done.len() {
                        assert(after.done[k] == before.done[k]);
                    }
                }
                assert forall|j: int, k: int| 0 <= j < k < after.done.len() implies (
                #[trigger] after.done[j]).end < (#[trigger] after.done[k]).start by {
                    assert(after.done[j] == before.done[j]);
                    if k < before.done.len() {
                        assert(after.done[k] == before.done[k]);
                    } else if j < before.done.len() - 1 {
                        assert(before.done[j].end < before.done[before.done.len() - 1].start);
                        assert(before.done.last() == before.done[before.done.len() - 1]);
                    }
                }
            }
        } else {
            assert(after.done == before.done);
            if before.open {
                assert(is_run(p, before.start, n));
                assert forall|i: int| after.start <= i < s.len() implies !is_space(
                    #[trigger] s[i],
                ) by {
                    if i < n {
                        assert(s[i] == p[i]);
                    }
                }
                if after.start > 0 {
                    assert(s[after.start - 1] == p[after.start - 1]);
                }
            } else {
                if n > 0 {
                    assert(s[n - 1] == p.last());
                }
                if before.done.len() > 0 {
                    assert(before.done.last() == before.done[before.done.len() - 1]);
                }
            }
        }
    }
}

/// The words of a text are its runs of characters between blanks, in the
/// order in which they stand.
pub proof fn lemma_words_shape(s: Seq<char>)
    ensures
        forall|k: int| 0 <= k < words(s).len() ==> is_word_of(s, #[trigger] words(s)[k]),
        in_order(words(s)),
{
    lemma_scan_shape(s);
    let st = scan(s);
    let ws = words(s);
    if st.open {
        let w = Word { start: st.start, end: s.len() as int, term: st.term };
        assert forall|k: int| 0 <= k < ws.len() implies is_word_of(s, #[trigger] ws[k]) by {
            if k < st.done.len() {
                assert(ws[k] == st.done[k]);
            }
        }
        assert forall|j: int, k: int| 0 <= j < k < ws.len() implies (#[trigger] ws[j]).end < (
        #[trigger] ws[k]).start by {
            assert(ws[j] == st.done[j]);
            if k < st.done.len() {
                assert(ws[k] == st.done[k]);
            } else if j < st.done.len() - 1 {
                assert(st.done[j].end < st.done[st.done.len() - 1].start);
                assert(st.done.last() == st.done[st.done.len() - 1]);
            }
        }
    }
}

/// The words that are too common to be worth finding.
pub open spec fn is_stop_word(t: Seq<char>) -> bool {
    t == "a"@ || t == "an"@ || t == "and"@ || t == "in"@ || t == "of"@ || t == "the"@ || t
        == "to"@
}

/// Whether a term is indexed and searched for.
pub open spec fn is_term(t: Seq<char>) -> bool {
    t.len() > 0 && !is_stop_word(t)
}

/// The terms of a list of words, in order.
pub open spec fn keep_terms(ws: Seq<Word>) -> Seq<Seq<char>>
    decreases ws.len(),
{
    if ws.len() == 0 {
        Seq::empty()
    } else if is_term(ws.last().term) {
        keep_terms(ws.drop_last()).push(ws.last().term)
    } else {
        keep_terms(ws.drop_last())
    }
}

/// The terms of a text, in order, each as often as it occurs.
pub open spec fn terms_of(s: Seq<char>) -> Seq<Seq<char>> {
    keep_terms(words(s))
}

/// How often `t` occurs in `ts`.
pub open spec fn occurrences(ts: Seq<Seq<char>>, t: Seq<char>) -> nat
    decreases ts.len(),
{
    if ts.len() == 0 {
        0
    } else {
        occurrences(ts.drop_last(), t) + if ts.last() == t {
            1nat
        } else {
            0nat
        }
    }
}

/// How often the term `t` occurs in the text `s`.
pub open spec fn frequency(s: Seq<char>, t: Seq<char>) -> nat {
    occurrences(terms_of(s), t)
}

/// A term occurs at most as often as there are terms, and not at all
/// exactly if it is not among them.
pub proof fn lemma_occurrences(ts: Seq<Seq<char>>, t: Seq<char>)
    ensures
        occurrences(ts, t) <= ts.len(),
        occurrences(ts, t) > 0 <==> ts.contains(t),
    decreases ts.len(),
{
    if ts.len() > 0 {
        lemma_occurrences(ts.drop_last(), t);
        if ts.last() == t {
            assert(ts[ts.len() - 1] == t);
        } else if ts.contains(t) {
            let i = choose|i: int| 0 <= i < ts.len() && ts[i] == t;
            assert(ts.drop_last()[i] == t);
        } else if ts.drop_last().contains(t) {
            let i = choose|i: int| 0 <= i < ts.drop_last().len() && ts.drop_last()[i] == t;
            assert(ts[i] == t);
        }
    }
}

/// One more term at the end is one more occurrence of that term and of no
/// other.
pub proof fn lemma_occurrences_push(ts: Seq<Seq<char>>, last: Seq<char>, t: Seq<char>)
    ensures
        occurrences(ts.push(last), t) == occurrences(ts, t) + if last == t {
            1nat
        } else {
            0nat
        },
{
    assert(ts.push(last).drop_last() =~= ts);
}

/// A word as the splitter hands it out.
#[derive(Debug, Clone, PartialEq, Eq)]
pub struct WordAt {
    /// Index of the first character of the word.
    pub start: usize,
    /// Index after the last character of the word.
    pub end: usize,
    /// The term of the word; empty if the word is punctuation only.
    pub term: Vec<char>,
}

impl View for WordAt {
    type V = Word;

    open spec fn view(&self) -> Word {
        Word { start: self.start as int, end: self.end as int, term: self.term@ }
    }
}

/// The content of a list of words.
pub open spec fn word_views(list: Seq<WordAt>) -> Seq<Word> {
    Seq::new(list.len(), |k: int| list[k]@)
}

/// Splits a text into its words.
pub fn split_words(s: &Vec<char>) -> (r: Vec<WordAt>)
    ensures
        word_views(r@) == words(s@),
{
    let mut done: Vec<WordAt> = Vec::new();
    let mut open = false;
    let mut start: usize = 0;
    let mut term: Vec<char> = Vec::new();
    let mut i: usize = 0;
    assert(word_views(done@) =~= Seq::<Word>::empty());
    while i < s.len()
        invariant
            i <= s.len(),
            scan(s@.take(i as int)) == (Scan {
                done: word_views(done@),
                open,
                start: start as int,
                term: term@,
            }),
        decreases s.len() - i,
    {
        let c = s[i];
        proof {
            assert(s@.take(i + 1).drop_last() =~= s@.take(i as int));
            assert(s@.take(i + 1).last() == c);
        }
        if is_space_char(c) {
            if open {
                let ghost before = word_views(done@);
                let word = WordAt { start, end: i, term };
                let ghost w = word@;
                done.push(word);
                assert(word_views(done@) =~= before.push(w));
                term = Vec::new();
                open = false;
                start = 0;
            }
        } else {
            if !open {
                open = true;
                start = i;
            }
            if is_term_character(c) {
                term.push(to_lower(c));
            }
        }
        i += 1;
    }
    assert(s@.take(s.len() as int) =~= s@);
    if open {
        let ghost before = word_views(done@);
        let word = WordAt { start, end: s.len(), term };
        let ghost w = word@;
        done.push(word);
        assert(word_views(done@) =~= before.push(w));
    }
    done
}

/// Whether `term` is the text of the literal `word`.
fn is_word(term: &Vec<char>, word: &str) -> (r: bool)
    ensures
        r == (term@ == word@),
{
    let other = chars_of(word);
    same_chars(term, &other)
}

/// Whether `term` is one of the stop words.
pub fn is_stop(term: &Vec<char>) -> (r: bool)
    ensures
        r == is_stop_word(term@),
{
    is_word(term, "a") || is_word(term, "an") || is_word(term, "and") || is_word(term, "in")
        || is_word(term, "of") || is_word(term, "the") || is_word(term, "to")
}

/// The terms of a list of words.
pub fn terms_of_words(list: Vec<WordAt>) -> (r: Vec<Vec<char>>)
    ensures
        texts(r@) == keep_terms(word_views(list@)),
{
    let mut out: Vec<Vec<char>> = Vec::new();
    assert(texts(out@) =~= Seq::<Seq<char>>::empty());
    for word in it: list
        invariant
            it.seq() == list@,
            texts(out@) == keep_terms(word_views(list@).take(it.index() as int)),
    {
        proof {
            let k = it.index() as int;
            let ws = word_views(list@);
            assert(ws.take(k + 1).drop_last() =~= ws.take(k));
            assert(ws.take(k + 1).last() == word@);
        }
        if word.term.len() > 0 && !is_stop(&word.term) {
            let ghost before = texts(out@);
            let ghost t = word.term@;
            out.push(word.term);
            assert(texts(out@) =~= before.push(t));
        }
    }
    assert(word_views(list@).take(list@.len() as int) =~= word_views(list@));
    out
}

/// The terms of a text.
pub fn terms(text: &str) -> (r: Vec<Vec<char>>)
    ensures
        texts(r@) == terms_of(text@),
{
    let s = chars_of(text);
    terms_of_words(split_words(&s))
}

} // verus!
