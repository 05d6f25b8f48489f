//! One handle on a canon and a corpus: the books, references resolved to
//! ranges and to verses, and search.
use vstd::prelude::*;
use vstd::utf8::{decode_utf8, valid_utf8};
use crate::canon::{Book, CanonRegistry, lookup};
use crate::locator::{LocatorRange, Span, span_contains, span_in_canon};
use crate::ranking::{SearchHit, Verse, hit_views, is_ranking};
use crate::resolver::{ReferenceError, range_view, resolve_reference, resolve_text};
use crate::search::{MalformedQuery, SearchIndex, DEFAULT_SNIPPET_LIMIT};
use crate::words::terms_of;

verus! {

/// The verses of a corpus that lie within a span, in the order of the
/// corpus.
pub open spec fn verses_within(corpus: Seq<Verse>, span: Span) -> Seq<Verse>
    decreases corpus.len(),
{
    if corpus.len() == 0 {
        Seq::empty()
    } else if span_contains(span, corpus.last().locator@) {
        verses_within(corpus.drop_last(), span).push(corpus.last())
    } else {
        verses_within(corpus.drop_last(), span)
    }
}

/// What looking a reference up gives: the verses of its range, or why the
/// reference has none.
pub open spec fn lookup_text(books: Seq<Book>, corpus: Seq<Verse>, text: Seq<char>) -> Result<
    Seq<Verse>,
    ReferenceError,
> {
    match resolve_text(books, text) {
        Ok(span) => Ok(verses_within(corpus, span)),
        Err(e) => Err(e),
    }
}

/// The verses of `corpus` that lie within `range`.
pub fn select_verses(corpus: &Vec<Verse>, range: &LocatorRange) -> (r: Vec<Verse>)
    ensures
        r@ == verses_within(corpus@, range@),
{
    let mut out: Vec<Verse> = Vec::new();
    let mut i: usize = 0;
    assert(corpus@.take(0) =~= Seq::<Verse>::empty());
    while i < corpus.len()
        invariant
            i <= corpus.len(),
            out@ == verses_within(corpus@.take(i as int), range@),
        decreases corpus.len() - i,
    {
        proof {
            assert(corpus@.take(i + 1).drop_last() =~= corpus@.take(i as int));
            assert(corpus@.take(i + 1).last() == corpus@[i as int]);
        }
        if range.contains(&corpus[i].locator) {
            out.push(Verse { locator: corpus[i].locator, text: corpus[i].text.clone() });
        }
        i += 1;
    }
    assert(corpus@.take(corpus.len() as int) =~= corpus@);
    out
}

/// A canon together with the index of a corpus.
pub struct ScriptureSource {
    canon: CanonRegistry,
    index: SearchIndex,
}

impl ScriptureSource {
    /// The books of the canon.
    pub closed spec fn books(&self) -> Seq<Book> {
        self.canon@
    }

    /// The verses of the corpus.
    pub closed spec fn corpus(&self) -> Seq<Verse> {
        self.index.corpus()
    }

    /// The largest number of characters a snippet may have.
    pub closed spec fn snippet_limit(&self) -> int {
        self.index.snippet_limit()
    }

    /// The invariant of the source: those of its canon and of its index.
    pub closed spec fn wf(&self) -> bool {
        self.canon.wf() && self.index.wf()
    }

    /// Puts a canon and a corpus together; the corpus is indexed here.
    pub fn new(canon: CanonRegistry, corpus: Vec<Verse>) -> (r: ScriptureSource)
        requires
            canon.wf(),
        ensures
            r.wf(),
            r.books() == canon@,
            r.corpus() == corpus@,
            r.snippet_limit() == DEFAULT_SNIPPET_LIMIT,
    {
        ScriptureSource { canon, index: SearchIndex::build(corpus) }
    }

    /// The canon of the source.
    pub fn canon(&self) -> (r: &CanonRegistry)
        requires
            self.wf(),
        ensures
            r.wf(),
            r@ == self.books(),
    {
        &self.canon
    }

    /// The books in canonical order.
    pub fn list_books(&self) -> (r: &Vec<Book>)
        ensures
            r@ == self.books(),
    {
        self.canon.books()
    }

    /// The book that answers to `name`, if there is one.
    pub fn get_book(&self, name: &str) -> (r: Option<&Book>)
        requires
            self.wf(),
        ensures
            match r {
                Some(book) => {
                    &&& lookup(self.books(), name@) == Some(book.ordinal as int)
                    &&& book.ordinal < self.books().len()
                    &&& *book == self.books()[book.ordinal as int]
                },
                None => lookup(self.books(), name@) is None,
            },
    {
        self.canon.find_book(name)
    }

    /// Reads a reference and resolves it against the canon.
    pub fn resolve_reference(&self, text: &str) -> (r: Result<LocatorRange, ReferenceError>)
        requires
            self.wf(),
        ensures
            range_view(r) == resolve_text(self.books(), text@),
            r is Ok ==> span_in_canon(self.books(), r->Ok_0@),
    {
        resolve_reference(&self.canon, text)
    }

    /// The verses of the corpus that lie within `range`, in the order of
    /// the corpus.
    pub fn fetch_text(&self, range: &LocatorRange) -> (r: Vec<Verse>)
        ensures
            r@ == verses_within(self.corpus(), range@),
    {
        select_verses(self.index.verses(), range)
    }

    /// The verses that a reference denotes.
    pub fn resolve(&self, text: &str) -> (r: Result<Vec<Verse>, ReferenceError>)
        requires
            self.wf(),
        ensures
            match r {
                Ok(verses) => lookup_text(self.books(), self.corpus(), text@) == Ok::<
                    Seq<Verse>,
                    ReferenceError,
                >(verses@),
                Err(e) => lookup_text(self.books(), self.corpus(), text@) == Err::<
                    Seq<Verse>,
                    ReferenceError,
                >(e),
            },
    {
        match self.resolve_reference(text) {
            Err(e) => Err(e),
            Ok(range) => Ok(self.fetch_text(&range)),
        }
    }

    /// The verses that match a query, best first, `limit` at most.
    pub fn search(&self, query: &str, limit: usize) -> (hits: Vec<SearchHit>)
        requires
            self.wf(),
        ensures
            is_ranking(
                self.corpus(),
                terms_of(query@),
                limit as int,
                self.snippet_limit(),
                hit_views(hits@),
            ),
    {
        self.index.search(query, limit)
    }

    /// Search for a query that arrives as bytes; bytes that are not UTF-8
    /// are refused.
    pub fn search_bytes(&self, query: &[u8], limit: usize) -> (r: Result<
        Vec<SearchHit>,
        MalformedQuery,
    >)
        requires
            self.wf(),
        ensures
            match r {
                Ok(hits) => valid_utf8(query@) && is_ranking(
                    self.corpus(),
                    terms_of(decode_utf8(query@)),
                    limit as int,
                    self.snippet_limit(),
                    hit_views(hits@),
                ),
                Err(_) => !valid_utf8(query@),
            },
    {
        self.index.search_bytes(query, limit)
    }
}

} // verus!
