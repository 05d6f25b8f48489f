//! What a search result is: scores, the order of hits, snippets, and the
//! laws that follow.
//!
//! The score of a verse for a query is the number of times the terms of
//! the query occur in the verse, each term of the query counted as often
//! as it is written there. Hits come by score, highest first; among equal
//! scores by locator in canonical order; among equal locators by position
//! in the corpus.
use vstd::prelude::*;
use crate::locator::{Locator, Place, place_before};
use crate::words::{Word, frequency, in_order, is_run, lemma_words_shape, words};

verus! {

/// A verse of the corpus: where it stands and what it says.
#[derive(Debug, Clone, PartialEq, Eq)]
pub struct Verse {
    pub locator: Locator,
    pub text: String,
}

/// The bounds of a word of a snippet that matches the query: the index of
/// its first character and the index after its last.
#[derive(Debug, Clone, Copy, PartialEq, Eq, Structural)]
pub struct Mark {
    pub start: usize,
    pub end: usize,
}

/// The start of a verse, no longer than the snippet limit, with the words
/// that match the query marked.
#[derive(Debug, Clone, PartialEq, Eq)]
pub struct Snippet {
    pub text: String,
    pub marks: Vec<Mark>,
}

/// The mathematical content of a snippet.
pub struct SnippetView {
    pub text: Seq<char>,
    pub marks: Seq<Mark>,
}

impl View for Snippet {
    type V = SnippetView;

    open spec fn view(&self) -> SnippetView {
        SnippetView { text: self.text@, marks: self.marks@ }
    }
}

/// A verse that matches a query.
#[derive(Debug, Clone, PartialEq, Eq)]
pub struct SearchHit {
    pub locator: Locator,
    /// How well the verse matches; never zero.
    pub score: u64,
    pub snippet: Snippet,
    /// Position of the verse in the corpus that was indexed.
    pub position: usize,
}

/// The mathematical content of a hit.
pub struct HitView {
    pub locator: Place,
    pub score: u64,
    pub snippet: SnippetView,
    pub position: int,
}

impl View for SearchHit {
    type V = HitView;

    open spec fn view(&self) -> HitView {
        HitView {
            locator: self.locator@,
            score: self.score,
            snippet: self.snippet@,
            position: self.position as int,
        }
    }
}

/// The content of a list of hits.
pub open spec fn hit_views(hits: Seq<SearchHit>) -> Seq<HitView> {
    Seq::new(hits.len(), |k: int| hits[k]@)
}

/// Number of occurrences in `text` of the terms of `query`, summed over
/// the query.
pub open spec fn score(text: Seq<char>, query: Seq<Seq<char>>) -> nat
    decreases query.len(),
{
    if query.len() == 0 {
        0
    } else {
        score(text, query.drop_last()) + frequency(text, query.last())
    }
}

/// A count as a machine number: itself, or the largest `u64` if it is
/// larger than that.
pub open spec fn capped(n: nat) -> u64 {
    if n > u64::MAX {
        u64::MAX
    } else {
        n as u64
    }
}

/// The score of each verse of the corpus, as a machine number.
pub open spec fn relevances(corpus: Seq<Verse>, query: Seq<Seq<char>>) -> Seq<u64> {
    Seq::new(corpus.len(), |d: int| capped(score(corpus[d].text@, query)))
}

/// The order of hits: whether the verse at position `a` comes before the
/// verse at position `b`.
pub open spec fn ranks_before(corpus: Seq<Verse>, scores: Seq<u64>, a: int, b: int) -> bool {
    scores[a] > scores[b] || (scores[a] == scores[b] && (place_before(
        corpus[a].locator@,
        corpus[b].locator@,
    ) || (corpus[a].locator@ == corpus[b].locator@ && a < b)))
}

/// The start of a text, `limit` characters at most.
pub open spec fn excerpt(text: Seq<char>, limit: int) -> Seq<char> {
    if text.len() <= limit {
        text
    } else {
        text.take(limit)
    }
}

/// The bounds of those words whose term is a term of the query, in order.
pub open spec fn mark_words(ws: Seq<Word>, query: Seq<Seq<char>>) -> Seq<Mark>
    decreases ws.len(),
{
    if ws.len() == 0 {
        Seq::empty()
    } else if query.contains(ws.last().term) {
        mark_words(ws.drop_last(), query).push(
            Mark { start: ws.last().start as usize, end: ws.last().end as usize },
        )
    } else {
        mark_words(ws.drop_last(), query)
    }
}

/// The snippet of a text for a query.
pub open spec fn snippet_of(text: Seq<char>, query: Seq<Seq<char>>, limit: int) -> SnippetView {
    SnippetView {
        text: excerpt(text, limit),
        marks: mark_words(words(excerpt(text, limit)), query),
    }
}

/// Whether the marks lie within a text, one after the other, each around a
/// run of characters without a blank.
pub open spec fn marks_fit(text: Seq<char>, marks: Seq<Mark>) -> bool {
    &&& forall|k: int|
        0 <= k < marks.len() ==> is_run(text, (#[trigger] marks[k]).start as int, marks[k].end as int)
    &&& forall|j: int, k: int|
        0 <= j < k < marks.len() ==> (#[trigger] marks[j]).end < (#[trigger] marks[k]).start
}

proof fn lemma_marks_fit(text: Seq<char>, ws: Seq<Word>, query: Seq<Seq<char>>)
    requires
        text.len() <= usize::MAX,
        forall|k: int| 0 <= k < ws.len() ==> is_run(text, (#[trigger] ws[k]).start, ws[k].end),
        in_order(ws),
    ensures
        marks_fit(text, mark_words(ws, query)),
        forall|k: int|
            0 <= k < mark_words(ws, query).len() && ws.len() > 0 ==> (#[trigger] mark_words(
                ws,
                query,
            )[k]).end <= ws.last().end,
        ws.len() == 0 ==> mark_words(ws, query).len() == 0,
    decreases ws.len(),
{
    if ws.len() > 0 {
        let rest = ws.drop_last();
        let w = ws.last();
        assert(w == ws[ws.len() - 1]);
        assert forall|k: int| 0 <= k < rest.len() implies is_run(
            text,
            (#[trigger] rest[k]).start,
            rest[k].end,
        ) by {
            assert(rest[k] == ws[k]);
        }
        assert(in_order(rest)) by {
            assert forall|j: int, k: int| 0 <= j < k < rest.len() implies (#[trigger] rest[j]).end < (
            #[trigger] rest[k]).start by {
                assert(rest[j] == ws[j]);
                assert(rest[k] == ws[k]);
            }
        }
        lemma_marks_fit(text, rest, query);
        let before = mark_words(rest, query);
        let after = mark_words(ws, query);
        if rest.len() > 0 {
            assert(rest.last() == ws[ws.len() - 2]);
            assert(ws[ws.len() - 2].end < ws[ws.len() - 1].start);
        }
        assert(is_run(text, w.start, w.end));
        if query.contains(w.term) {
            let m = Mark { start: w.start as usize, end: w.end as usize };
            assert(after == before.push(m));
            assert forall|k: int| 0 <= k < after.len() implies is_run(
                text,
                (#[trigger] after[k]).start as int,
                after[k].end as int,
            ) by {
                if k < before.len() {
                    assert(after[k] == before[k]);
                }
            }
            assert forall|j: int, k: int| 0 <= j < k < after.len() implies (#[trigger] after[j]).end < (
            #[trigger] after[k]).start by {
                assert(after[j] == before[j]);
                if k < before.len() {
                    assert(after[k] == before[k]);
                }
            }
            assert forall|k: int| 0 <= k < after.len() implies (#[trigger] after[k]).end
                <= w.end by {
                if k < before.len() {
                    assert(after[k] == before[k]);
                }
            }
        }
    }
}

/// A snippet is the start of its text and no longer than the limit; its
/// marks lie within it, one after the other, each around a run of
/// characters without a blank.
pub proof fn lemma_snippet_shape(text: Seq<char>, query: Seq<Seq<char>>, limit: int)
    requires
        0 <= limit <= usize::MAX,
    ensures
        snippet_of(text, query, limit).text.len() <= limit,
        snippet_of(text, query, limit).text.len() <= text.len(),
        snippet_of(text, query, limit).text == text.take(
            snippet_of(text, query, limit).text.len() as int,
        ),
        marks_fit(snippet_of(text, query, limit).text, snippet_of(text, query, limit).marks),
{
    let e = excerpt(text, limit);
    assert(e =~= text.take(e.len() as int));
    lemma_words_shape(e);
    lemma_marks_fit(e, words(e), query);
}

/// The hit that the verse at position `d` makes for a query.
pub open spec fn hit_of(corpus: Seq<Verse>, query: Seq<Seq<char>>, snippet_limit: int, d: int) -> HitView {
    HitView {
        locator: corpus[d].locator@,
        score: relevances(corpus, query)[d],
        snippet: snippet_of(corpus[d].text@, query, snippet_limit),
        position: d,
    }
}

/// Whether the verse at position `d` is among the hits.
pub open spec fn holds_position(hits: Seq<HitView>, d: int) -> bool {
    exists|k: int| 0 <= k < hits.len() && (#[trigger] hits[k]).position == d
}

/// Whether every hit comes before the verse at position `d`.
pub open spec fn all_rank_before(corpus: Seq<Verse>, scores: Seq<u64>, hits: Seq<HitView>, d: int) -> bool {
    forall|k: int| 0 <= k < hits.len() ==> ranks_before(corpus, scores, (#[trigger] hits[k]).position, d)
}

/// Whether `hits` is the answer to a query: at most `limit` hits; each the
/// hit of a verse with a score above zero; in the order of hits; and no
/// matching verse left out unless the limit is reached and the verse
/// comes after every hit.
pub open spec fn is_ranking(
    corpus: Seq<Verse>,
    query: Seq<Seq<char>>,
    limit: int,
    snippet_limit: int,
    hits: Seq<HitView>,
) -> bool {
    let scores = relevances(corpus, query);
    &&& hits.len() <= limit
    &&& forall|k: int|
        0 <= k < hits.len() ==> {
            &&& 0 <= (#[trigger] hits[k]).position < corpus.len()
            &&& hits[k].score > 0
            &&& hits[k] == hit_of(corpus, query, snippet_limit, hits[k].position)
        }
    &&& forall|j: int, k: int|
        0 <= j < k < hits.len() ==> ranks_before(
            corpus,
            scores,
            (#[trigger] hits[j]).position,
            (#[trigger] hits[k]).position,
        )
    &&& forall|d: int|
        0 <= d < corpus.len() && #[trigger] scores[d] > 0 ==> holds_position(hits, d) || (hits.len()
            == limit && all_rank_before(corpus, scores, hits, d))
}

/// The order of hits is a strict total order on the positions of a
/// corpus.
pub proof fn lemma_rank_order(corpus: Seq<Verse>, scores: Seq<u64>, a: int, b: int, c: int)
    ensures
        !ranks_before(corpus, scores, a, a),
        ranks_before(corpus, scores, a, b) ==> !ranks_before(corpus, scores, b, a),
        ranks_before(corpus, scores, a, b) && ranks_before(corpus, scores, b, c) ==> ranks_before(
            corpus,
            scores,
            a,
            c,
        ),
        a == b || ranks_before(corpus, scores, a, b) || ranks_before(corpus, scores, b, a),
{
}

/// Where two answers to one query agree up to `k`, the hit of the one at
/// `k` does not come before the hit of the other.
proof fn lemma_no_first_difference(
    corpus: Seq<Verse>,
    query: Seq<Seq<char>>,
    limit: int,
    snippet_limit: int,
    a: Seq<HitView>,
    b: Seq<HitView>,
    k: int,
)
    requires
        is_ranking(corpus, query, limit, snippet_limit, a),
        is_ranking(corpus, query, limit, snippet_limit, b),
        0 <= k < a.len(),
        k < b.len(),
        forall|j: int| 0 <= j < k ==> a[j].position == b[j].position,
    ensures
        !ranks_before(corpus, relevances(corpus, query), a[k].position, b[k].position),
{
    let scores = relevances(corpus, query);
    let d = a[k].position;
    assert(a[k] == hit_of(corpus, query, snippet_limit, d));
    assert(scores[d] > 0);
    if !ranks_before(corpus, scores, d, b[k].position) {
    } else if holds_position(b, d) {
        let j = choose|j: int| 0 <= j < b.len() && (#[trigger] b[j]).position == d;
        if j < k {
            assert(a[j].position == b[j].position);
            assert(ranks_before(corpus, scores, a[j].position, a[k].position));
        } else if j > k {
            assert(ranks_before(corpus, scores, b[k].position, b[j].position));
        }
    } else {
        assert(all_rank_before(corpus, scores, b, d));
        assert(ranks_before(corpus, scores, b[k].position, d));
    }
}

/// Two answers to one query hold the same verses at the same places, as
/// far as both go.
proof fn lemma_same_positions(
    corpus: Seq<Verse>,
    query: Seq<Seq<char>>,
    limit: int,
    snippet_limit: int,
    a: Seq<HitView>,
    b: Seq<HitView>,
    n: int,
)
    requires
        is_ranking(corpus, query, limit, snippet_limit, a),
        is_ranking(corpus, query, limit, snippet_limit, b),
        0 <= n <= a.len(),
        n <= b.len(),
    ensures
        forall|j: int| 0 <= j < n ==> a[j].position == b[j].position,
    decreases n,
{
    if n > 0 {
        lemma_same_positions(corpus, query, limit, snippet_limit, a, b, n - 1);
        let k = n - 1;
        let scores = relevances(corpus, query);
        if a[k].position != b[k].position {
            lemma_rank_order(corpus, scores, a[k].position, b[k].position, a[k].position);
            lemma_no_first_difference(corpus, query, limit, snippet_limit, a, b, k);
            lemma_no_first_difference(corpus, query, limit, snippet_limit, b, a, k);
        }
    }
}

/// An answer is not shorter than another answer to the same query.
proof fn lemma_not_shorter(
    corpus: Seq<Verse>,
    query: Seq<Seq<char>>,
    limit: int,
    snippet_limit: int,
    a: Seq<HitView>,
    b: Seq<HitView>,
)
    requires
        is_ranking(corpus, query, limit, snippet_limit, a),
        is_ranking(corpus, query, limit, snippet_limit, b),
    ensures
        a.len() >= b.len(),
{
    if a.len() < b.len() {
        let scores = relevances(corpus, query);
        let n = a.len() as int;
        let d = b[n].position;
        lemma_same_positions(corpus, query, limit, snippet_limit, a, b, n);
        assert(b[n] == hit_of(corpus, query, snippet_limit, d));
        assert(scores[d] > 0);
        assert(holds_position(a, d));
        let j = choose|j: int| 0 <= j < a.len() && (#[trigger] a[j]).position == d;
        assert(a[j].position == b[j].position);
        assert(ranks_before(corpus, scores, b[j].position, b[n].position));
    }
}

/// A query has one answer: the same query against the same corpus, with
/// the same limits, gives the same hits in the same order.
pub proof fn lemma_ranking_unique(
    corpus: Seq<Verse>,
    query: Seq<Seq<char>>,
    limit: int,
    snippet_limit: int,
    a: Seq<HitView>,
    b: Seq<HitView>,
)
    requires
        is_ranking(corpus, query, limit, snippet_limit, a),
        is_ranking(corpus, query, limit, snippet_limit, b),
    ensures
        a == b,
{
    lemma_not_shorter(corpus, query, limit, snippet_limit, a, b);
    lemma_not_shorter(corpus, query, limit, snippet_limit, b, a);
    lemma_same_positions(corpus, query, limit, snippet_limit, a, b, a.len() as int);
    assert forall|k: int| 0 <= k < a.len() implies a[k] == b[k] by {
        assert(a[k] == hit_of(corpus, query, snippet_limit, a[k].position));
        assert(b[k] == hit_of(corpus, query, snippet_limit, b[k].position));
    }
    assert(a =~= b);
}

/// Whether no term of the query occurs in any verse of the corpus.
pub open spec fn all_absent(corpus: Seq<Verse>, query: Seq<Seq<char>>) -> bool {
    forall|d: int, i: int|
        0 <= d < corpus.len() && 0 <= i < query.len() ==> frequency(
            (#[trigger] corpus[d]).text@,
            #[trigger] query[i],
        ) == 0
}

/// A text in which no term of the query occurs has score zero.
pub proof fn lemma_score_zero(text: Seq<char>, query: Seq<Seq<char>>)
    requires
        forall|i: int| 0 <= i < query.len() ==> frequency(text, #[trigger] query[i]) == 0,
    ensures
        score(text, query) == 0,
    decreases query.len(),
{
    if query.len() > 0 {
        assert forall|i: int| 0 <= i < query.drop_last().len() implies frequency(
            text,
            #[trigger] query.drop_last()[i],
        ) == 0 by {
            assert(query.drop_last()[i] == query[i]);
        }
        lemma_score_zero(text, query.drop_last());
        assert(query.last() == query[query.len() - 1]);
    }
}

/// A query whose terms all are absent from the corpus, and so an empty
/// query too, has the empty answer.
pub proof fn lemma_absent_terms_find_nothing(
    corpus: Seq<Verse>,
    query: Seq<Seq<char>>,
    limit: int,
    snippet_limit: int,
    hits: Seq<HitView>,
)
    requires
        all_absent(corpus, query),
        is_ranking(corpus, query, limit, snippet_limit, hits),
    ensures
        hits.len() == 0,
{
    if hits.len() > 0 {
        let d = hits[0].position;
        assert forall|i: int| 0 <= i < query.len() implies frequency(
            corpus[d].text@,
            #[trigger] query[i],
        ) == 0 by {}
        lemma_score_zero(corpus[d].text@, query);
        assert(hits[0] == hit_of(corpus, query, snippet_limit, d));
    }
}

/// The score grows with the frequencies: a text in which every term of
/// the query occurs at least as often as in another scores at least as
/// high.
pub proof fn lemma_score_monotonic(a: Seq<char>, b: Seq<char>, query: Seq<Seq<char>>)
    requires
        forall|i: int| 0 <= i < query.len() ==> frequency(a, #[trigger] query[i]) <= frequency(b, query[i]),
    ensures
        score(a, query) <= score(b, query),
        capped(score(a, query)) <= capped(score(b, query)),
    decreases query.len(),
{
    if query.len() > 0 {
        assert forall|i: int| 0 <= i < query.drop_last().len() implies frequency(
            a,
            #[trigger] query.drop_last()[i],
        ) <= frequency(b, query.drop_last()[i]) by {
            assert(query.drop_last()[i] == query[i]);
        }
        lemma_score_monotonic(a, b, query.drop_last());
        assert(query.last() == query[query.len() - 1]);
    }
}

} // verus!
