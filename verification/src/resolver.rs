//! From a reference as written to a range of verses that the canon has.
//!
//! The book is settled first; only then are numbers held against its
//! chapters and verses. For a range the chapters are checked, then the
//! order of the two ends, then the verses, so that a range written
//! backwards within a chapter the book has is always reported as inverted.
use vstd::prelude::*;
use crate::canon::{Book, CanonBound, CanonRegistry, OutOfCanon, lookup, table_valid};
use crate::locator::{Locator, LocatorRange, Place, Span, in_canon, place_before, span_in_canon};
use crate::parser::{RawReference, RawView, Scope, SyntaxError, parse, parse_spec};

verus! {

/// Why a well-written reference names nothing in the canon.
#[derive(Debug, Clone, Copy, PartialEq, Eq, Structural)]
pub enum ResolveError {
    /// No book answers to the name.
    UnknownBook,
    /// A book, chapter or verse number beyond what the canon has.
    OutOfCanon(OutOfCanon),
    /// The end of the range comes before its start, or lies in another
    /// book where that is not allowed.
    InvertedRange,
}

/// Why a text could not be turned into a range.
#[derive(Debug, Clone, Copy, PartialEq, Eq, Structural)]
pub enum ReferenceError {
    /// The text is not in the grammar.
    Syntax(SyntaxError),
    /// The text is well written but the canon does not have what it names.
    Resolve(ResolveError),
}

pub open spec fn place(book: int, chapter: int, verse: int) -> Place {
    Place { book, chapter, verse }
}

/// The report on a chapter number the book does not have.
pub open spec fn chapter_fault(book: Book, chapter: int) -> ResolveError {
    ResolveError::OutOfCanon(
        OutOfCanon {
            bound: CanonBound::Chapter,
            given: chapter as usize,
            limit: book.chapters() as usize,
        },
    )
}

/// The report on a verse number that a chapter of the book does not have.
pub open spec fn verse_fault(book: Book, chapter: int, verse: int) -> ResolveError {
    ResolveError::OutOfCanon(
        OutOfCanon {
            bound: CanonBound::Verse,
            given: verse as usize,
            limit: book.verses_in(chapter) as usize,
        },
    )
}

/// The report on a book ordinal beyond the table.
pub open spec fn book_fault(books: Seq<Book>, book: int) -> ResolveError {
    ResolveError::OutOfCanon(
        OutOfCanon { bound: CanonBound::Book, given: book as usize, limit: books.len() as usize },
    )
}

/// What is wrong with an address, if anything: the book is looked at
/// first, then the chapter, then the verse.
pub open spec fn place_fault(books: Seq<Book>, p: Place) -> Option<ResolveError> {
    if !(0 <= p.book < books.len()) {
        Some(book_fault(books, p.book))
    } else if !books[p.book].has_chapter(p.chapter) {
        Some(chapter_fault(books[p.book], p.chapter))
    } else if !books[p.book].has_verse(p.chapter, p.verse) {
        Some(verse_fault(books[p.book], p.chapter, p.verse))
    } else {
        None
    }
}

/// The range that a scope denotes within a book, or why it denotes none.
pub open spec fn resolve_scope(book: Book, scope: Scope) -> Result<Span, ResolveError> {
    let b = book.ordinal as int;
    match scope {
        Scope::WholeBook => Ok(
            Span {
                start: place(b, 1, 1),
                end: place(b, book.chapters(), book.verses_in(book.chapters())),
            },
        ),
        Scope::Chapter { chapter } => {
            if !book.has_chapter(chapter as int) {
                Err(chapter_fault(book, chapter as int))
            } else {
                Ok(
                    Span {
                        start: place(b, chapter as int, 1),
                        end: place(b, chapter as int, book.verses_in(chapter as int)),
                    },
                )
            }
        },
        Scope::Verse { chapter, verse } => {
            if !book.has_chapter(chapter as int) {
                Err(chapter_fault(book, chapter as int))
            } else if !book.has_verse(chapter as int, verse as int) {
                Err(verse_fault(book, chapter as int, verse as int))
            } else {
                Ok(
                    Span {
                        start: place(b, chapter as int, verse as int),
                        end: place(b, chapter as int, verse as int),
                    },
                )
            }
        },
        Scope::Verses { chapter, first, last } => {
            if !book.has_chapter(chapter as int) {
                Err(chapter_fault(book, chapter as int))
            } else if last < first {
                Err(ResolveError::InvertedRange)
            } else if !book.has_verse(chapter as int, first as int) {
                Err(verse_fault(book, chapter as int, first as int))
            } else if !book.has_verse(chapter as int, last as int) {
                Err(verse_fault(book, chapter as int, last as int))
            } else {
                Ok(
                    Span {
                        start: place(b, chapter as int, first as int),
                        end: place(b, chapter as int, last as int),
                    },
                )
            }
        },
        Scope::Span { chapter, verse, end_chapter, end_verse } => {
            if !book.has_chapter(chapter as int) {
                Err(chapter_fault(book, chapter as int))
            } else if !book.has_chapter(end_chapter as int) {
                Err(chapter_fault(book, end_chapter as int))
            } else if place_before(
                place(b, end_chapter as int, end_verse as int),
                place(b, chapter as int, verse as int),
            ) {
                Err(ResolveError::InvertedRange)
            } else if !book.has_verse(chapter as int, verse as int) {
                Err(verse_fault(book, chapter as int, verse as int))
            } else if !book.has_verse(end_chapter as int, end_verse as int) {
                Err(verse_fault(book, end_chapter as int, end_verse as int))
            } else {
                Ok(
                    Span {
                        start: place(b, chapter as int, verse as int),
                        end: place(b, end_chapter as int, end_verse as int),
                    },
                )
            }
        },
    }
}

/// The range that a raw reference denotes in a table of books.
pub open spec fn resolve_spec(books: Seq<Book>, raw: RawView) -> Result<Span, ResolveError> {
    match lookup(books, raw.book) {
        None => Err(ResolveError::UnknownBook),
        Some(i) => resolve_scope(books[i], raw.scope),
    }
}

/// The range that a text denotes in a table of books.
pub open spec fn resolve_text(books: Seq<Book>, text: Seq<char>) -> Result<Span, ReferenceError> {
    match parse_spec(text) {
        Err(e) => Err(ReferenceError::Syntax(e)),
        Ok(raw) => match resolve_spec(books, raw) {
            Err(e) => Err(ReferenceError::Resolve(e)),
            Ok(span) => Ok(span),
        },
    }
}

/// The range that two ends make: both must be in the table, the end not
/// before the start, and in the same book unless `across_books` is set.
pub open spec fn join_spec(books: Seq<Book>, start: Place, end: Place, across_books: bool) -> Result<
    Span,
    ResolveError,
> {
    if place_fault(books, start) is Some {
        Err(place_fault(books, start)->0)
    } else if place_fault(books, end) is Some {
        Err(place_fault(books, end)->0)
    } else if place_before(end, start) || (start.book != end.book && !across_books) {
        Err(ResolveError::InvertedRange)
    } else {
        Ok(Span { start, end })
    }
}

/// The content of a resolver result.
pub open spec fn range_view<E>(r: Result<LocatorRange, E>) -> Result<Span, E> {
    match r {
        Ok(range) => Ok(range@),
        Err(e) => Err(e),
    }
}

/// The content of a checked address.
pub open spec fn locator_view(r: Result<Locator, ResolveError>) -> Result<Place, ResolveError> {
    match r {
        Ok(l) => Ok(l@),
        Err(e) => Err(e),
    }
}

/// Every range that resolution gives lies within the canon: its chapters
/// are chapters of the book, its verses are verses of those chapters, and
/// its start is not after its end.
pub proof fn lemma_resolved_in_canon(books: Seq<Book>, raw: RawView)
    requires
        table_valid(books),
        resolve_spec(books, raw) is Ok,
    ensures
        span_in_canon(books, resolve_spec(books, raw)->Ok_0),
        resolve_spec(books, raw)->Ok_0.start.book == resolve_spec(books, raw)->Ok_0.end.book,
{
    let i = lookup(books, raw.book)->0;
    assert(books[i].well_formed(i));
    let book = books[i];
    assert(book.verse_counts@[book.chapters() - 1] >= 1);
    match raw.scope {
        Scope::Chapter { chapter } => {
            assert(book.verse_counts@[chapter as int - 1] >= 1);
        },
        _ => {},
    }
}

/// A chapter number the book does not have is reported as out of canon,
/// whatever else the reference says, and never as an unknown book.
pub proof fn lemma_unknown_chapter_out_of_canon(books: Seq<Book>, raw: RawView, chapter: u32)
    requires
        lookup(books, raw.book) is Some,
        match raw.scope {
            Scope::WholeBook => false,
            Scope::Chapter { chapter: c } => c == chapter,
            Scope::Verse { chapter: c, .. } => c == chapter,
            Scope::Verses { chapter: c, .. } => c == chapter,
            Scope::Span { chapter: c, .. } => c == chapter,
        },
        !books[lookup(books, raw.book)->0].has_chapter(chapter as int),
    ensures
        resolve_spec(books, raw) == Err::<Span, ResolveError>(
            chapter_fault(books[lookup(books, raw.book)->0], chapter as int),
        ),
{
}

/// Verses of a chapter the book has, written with the larger number first,
/// are reported as an inverted range.
pub proof fn lemma_descending_verses_inverted(books: Seq<Book>, raw: RawView)
    requires
        lookup(books, raw.book) is Some,
        raw.scope matches Scope::Verses { chapter, first, last } && last < first && books[lookup(
            books,
            raw.book,
        )->0].has_chapter(chapter as int),
    ensures
        resolve_spec(books, raw) == Err::<Span, ResolveError>(ResolveError::InvertedRange),
{
}

impl Book {
    /// Number of verses of `chapter`, or the report that the book has no
    /// such chapter.
    pub fn verse_count(&self, chapter: u32) -> (r: Result<u32, ResolveError>)
        requires
            self.well_formed(self.ordinal as int),
        ensures
            match r {
                Ok(n) => self.has_chapter(chapter as int) && n == self.verses_in(chapter as int) && n
                    >= 1,
                Err(e) => !self.has_chapter(chapter as int) && e == chapter_fault(
                    *self,
                    chapter as int,
                ),
            },
    {
        if chapter == 0 || chapter as usize > self.verse_counts.len() {
            Err(
                ResolveError::OutOfCanon(
                    OutOfCanon {
                        bound: CanonBound::Chapter,
                        given: chapter as usize,
                        limit: self.verse_counts.len(),
                    },
                ),
            )
        } else {
            Ok(self.verse_counts[chapter as usize - 1])
        }
    }

    /// Checks `chapter:verse` against the book.
    pub fn check_verse(&self, chapter: u32, verse: u32) -> (r: Result<(), ResolveError>)
        requires
            self.well_formed(self.ordinal as int),
            self.has_chapter(chapter as int),
        ensures
            match r {
                Ok(_) => self.has_verse(chapter as int, verse as int),
                Err(e) => !self.has_verse(chapter as int, verse as int) && e == verse_fault(
                    *self,
                    chapter as int,
                    verse as int,
                ),
            },
    {
        let count = self.verse_counts[chapter as usize - 1];
        if verse == 0 || verse > count {
            Err(
                ResolveError::OutOfCanon(
                    OutOfCanon {
                        bound: CanonBound::Verse,
                        given: verse as usize,
                        limit: count as usize,
                    },
                ),
            )
        } else {
            Ok(())
        }
    }

    /// The range that `scope` denotes within this book.
    pub fn resolve_scope(&self, scope: Scope) -> (r: Result<LocatorRange, ResolveError>)
        requires
            self.well_formed(self.ordinal as int),
        ensures
            range_view(r) == resolve_scope(*self, scope),
    {
        let b = self.ordinal;
        match scope {
            Scope::WholeBook => {
                let last_chapter = self.verse_counts.len() as u32;
                let last_verse = self.verse_counts[self.verse_counts.len() - 1];
                Ok(
                    LocatorRange::new(
                        Locator::new(b, 1, 1),
                        Locator::new(b, last_chapter, last_verse),
                    ),
                )
            },
            Scope::Chapter { chapter } => {
                let count = match self.verse_count(chapter) {
                    Err(e) => { return Err(e); },
                    Ok(n) => n,
                };
                Ok(LocatorRange::new(Locator::new(b, chapter, 1), Locator::new(b, chapter, count)))
            },
            Scope::Verse { chapter, verse } => {
                match self.verse_count(chapter) {
                    Err(e) => { return Err(e); },
                    Ok(_) => {},
                }
                match self.check_verse(chapter, verse) {
                    Err(e) => { return Err(e); },
                    Ok(_) => {},
                }
                let at = Locator::new(b, chapter, verse);
                Ok(LocatorRange::new(at, at))
            },
            Scope::Verses { chapter, first, last } => {
                match self.verse_count(chapter) {
                    Err(e) => { return Err(e); },
                    Ok(_) => {},
                }
                if last < first {
                    return Err(ResolveError::InvertedRange);
                }
                match self.check_verse(chapter, first) {
                    Err(e) => { return Err(e); },
                    Ok(_) => {},
                }
                match self.check_verse(chapter, last) {
                    Err(e) => { return Err(e); },
                    Ok(_) => {},
                }
                Ok(
                    LocatorRange::new(
                        Locator::new(b, chapter, first),
                        Locator::new(b, chapter, last),
                    ),
                )
            },
            Scope::Span { chapter, verse, end_chapter, end_verse } => {
                match self.verse_count(chapter) {
                    Err(e) => { return Err(e); },
                    Ok(_) => {},
                }
                match self.verse_count(end_chapter) {
                    Err(e) => { return Err(e); },
                    Ok(_) => {},
                }
                let start = Locator::new(b, chapter, verse);
                let end = Locator::new(b, end_chapter, end_verse);
                if end.precedes(&start) {
                    return Err(ResolveError::InvertedRange);
                }
                match self.check_verse(chapter, verse) {
                    Err(e) => { return Err(e); },
                    Ok(_) => {},
                }
                match self.check_verse(end_chapter, end_verse) {
                    Err(e) => { return Err(e); },
                    Ok(_) => {},
                }
                Ok(LocatorRange::new(start, end))
            },
        }
    }
}

impl CanonRegistry {
    /// The locator of a verse, after checking that the canon has it.
    pub fn locate(&self, book: usize, chapter: u32, verse: u32) -> (r: Result<Locator, ResolveError>)
        requires
            self.wf(),
        ensures
            locator_view(r) == match place_fault(self@, place(book as int, chapter as int, verse as int)) {
                Some(e) => Err::<Place, ResolveError>(e),
                None => Ok(place(book as int, chapter as int, verse as int)),
            },
            r is Ok ==> in_canon(self@, r->Ok_0@),
    {
        let found = match self.book(book) {
            Err(e) => { return Err(ResolveError::OutOfCanon(e)); },
            Ok(found) => found,
        };
        assert(self@[book as int].well_formed(book as int));
        match found.verse_count(chapter) {
            Err(e) => { return Err(e); },
            Ok(_) => {},
        }
        match found.check_verse(chapter, verse) {
            Err(e) => { return Err(e); },
            Ok(_) => {},
        }
        Ok(Locator::new(book, chapter, verse))
    }

    /// Whether the canon has the verse that `at` addresses; if not, what
    /// is wrong with it.
    pub fn check(&self, at: &Locator) -> (r: Result<(), ResolveError>)
        requires
            self.wf(),
        ensures
            match r {
                Ok(_) => place_fault(self@, at@) is None && in_canon(self@, at@),
                Err(e) => place_fault(self@, at@) == Some(e),
            },
    {
        match self.locate(at.book(), at.chapter(), at.verse()) {
            Err(e) => Err(e),
            Ok(_) => Ok(()),
        }
    }

    /// The range from `start` to `end`. A range that runs from one book
    /// into another is made only where `across_books` allows it, and is
    /// reported as inverted otherwise.
    pub fn range(&self, start: Locator, end: Locator, across_books: bool) -> (r: Result<
        LocatorRange,
        ResolveError,
    >)
        requires
            self.wf(),
        ensures
            range_view(r) == join_spec(self@, start@, end@, across_books),
            r is Ok ==> span_in_canon(self@, r->Ok_0@),
    {
        match self.check(&start) {
            Err(e) => { return Err(e); },
            Ok(_) => {},
        }
        match self.check(&end) {
            Err(e) => { return Err(e); },
            Ok(_) => {},
        }
        if end.precedes(&start) || (start.book() != end.book() && !across_books) {
            return Err(ResolveError::InvertedRange);
        }
        Ok(LocatorRange::new(start, end))
    }
}

/// Resolves a raw reference against the canon: the book by its name, then
/// the numbers against the book.
pub fn resolve(raw: &RawReference, canon: &CanonRegistry) -> (r: Result<LocatorRange, ResolveError>)
    requires
        canon.wf(),
    ensures
        range_view(r) == resolve_spec(canon@, raw@),
        r is Ok ==> span_in_canon(canon@, r->Ok_0@),
{
    let book = match canon.find_book(raw.book.as_str()) {
        None => { return Err(ResolveError::UnknownBook); },
        Some(book) => book,
    };
    assert(canon@[book.ordinal as int].well_formed(book.ordinal as int));
    let r = book.resolve_scope(raw.scope);
    proof {
        if r is Ok {
            lemma_resolved_in_canon(canon@, raw@);
        }
    }
    r
}

/// Reads and resolves a reference in one step.
pub fn resolve_reference(canon: &CanonRegistry, text: &str) -> (r: Result<
    LocatorRange,
    ReferenceError,
>)
    requires
        canon.wf(),
    ensures
        range_view(r) == resolve_text(canon@, text@),
        r is Ok ==> span_in_canon(canon@, r->Ok_0@),
{
    let raw = match parse(text) {
        Err(e) => { return Err(ReferenceError::Syntax(e)); },
        Ok(raw) => raw,
    };
    match resolve(&raw, canon) {
        Err(e) => Err(ReferenceError::Resolve(e)),
        Ok(range) => Ok(range),
    }
}

} // verus!
