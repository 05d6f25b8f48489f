//! Addresses of verses and spans between them, in canonical order.
use vstd::prelude::*;
use crate::canon::Book;

verus! {

/// The mathematical content of a locator: book ordinal, chapter and verse.
pub struct Place {
    pub book: int,
    pub chapter: int,
    pub verse: int,
}

/// The mathematical content of a range: its two ends, both included.
pub struct Span {
    pub start: Place,
    pub end: Place,
}

/// Canonical order, strict: by book, then chapter, then verse.
pub open spec fn place_before(a: Place, b: Place) -> bool {
    a.book < b.book || (a.book == b.book && (a.chapter < b.chapter || (a.chapter == b.chapter
        && a.verse < b.verse)))
}

/// Canonical order: `a` is `b` or comes before it.
pub open spec fn place_le(a: Place, b: Place) -> bool {
    a == b || place_before(a, b)
}

/// Whether `p` addresses a verse that the table has.
pub open spec fn in_canon(books: Seq<Book>, p: Place) -> bool {
    0 <= p.book < books.len() && books[p.book].has_verse(p.chapter, p.verse)
}

/// Whether both ends of `s` are in the table and the start is not after the
/// end.
pub open spec fn span_in_canon(books: Seq<Book>, s: Span) -> bool {
    in_canon(books, s.start) && in_canon(books, s.end) && place_le(s.start, s.end)
}

/// Whether `p` lies within `s`, ends included.
pub open spec fn span_contains(s: Span, p: Place) -> bool {
    place_le(s.start, p) && place_le(p, s.end)
}

/// The address of one verse. Values are made by the resolver only, which
/// checks them against a canon.
#[derive(Debug, Clone, Copy, PartialEq, Eq, Hash, Structural)]
pub struct Locator {
    book: usize,
    chapter: u32,
    verse: u32,
}

impl View for Locator {
    type V = Place;

    closed spec fn view(&self) -> Place {
        Place { book: self.book as int, chapter: self.chapter as int, verse: self.verse as int }
    }
}

impl Locator {
    pub(crate) fn new(book: usize, chapter: u32, verse: u32) -> (r: Locator)
        ensures
            r@ == (Place { book: book as int, chapter: chapter as int, verse: verse as int }),
    {
        Locator { book, chapter, verse }
    }

    /// Ordinal of the book.
    pub fn book(&self) -> (r: usize)
        ensures
            r == self@.book,
    {
        self.book
    }

    /// Chapter number, counted from one.
    pub fn chapter(&self) -> (r: u32)
        ensures
            r == self@.chapter,
    {
        self.chapter
    }

    /// Verse number, counted from one.
    pub fn verse(&self) -> (r: u32)
        ensures
            r == self@.verse,
    {
        self.verse
    }

    /// Whether this verse comes before `other` in canonical order.
    pub fn precedes(&self, other: &Locator) -> (r: bool)
        ensures
            r == place_before(self@, other@),
    {
        self.book < other.book || (self.book == other.book && (self.chapter < other.chapter || (
        self.chapter == other.chapter && self.verse < other.verse)))
    }

    /// Whether both address the same verse.
    pub fn same(&self, other: &Locator) -> (r: bool)
        ensures
            r == (self@ == other@),
            r == (*self == *other),
    {
        self.book == other.book && self.chapter == other.chapter && self.verse == other.verse
    }

    /// A locator is its content: two with the same content are equal.
    pub proof fn lemma_view_determines(a: Locator, b: Locator)
        requires
            a@ == b@,
        ensures
            a == b,
    {
    }
}

/// A span of verses between two locators, both included, the first not
/// after the second.
#[derive(Debug, Clone, Copy, PartialEq, Eq, Hash, Structural)]
pub struct LocatorRange {
    start: Locator,
    end: Locator,
}

impl View for LocatorRange {
    type V = Span;

    closed spec fn view(&self) -> Span {
        Span { start: self.start@, end: self.end@ }
    }
}

impl LocatorRange {
    pub(crate) fn new(start: Locator, end: Locator) -> (r: LocatorRange)
        ensures
            r@ == (Span { start: start@, end: end@ }),
    {
        LocatorRange { start, end }
    }

    /// First verse of the range.
    pub fn start(&self) -> (r: Locator)
        ensures
            r@ == self@.start,
    {
        self.start
    }

    /// Last verse of the range.
    pub fn end(&self) -> (r: Locator)
        ensures
            r@ == self@.end,
    {
        self.end
    }

    /// Whether the range runs from one book into another.
    pub fn spans_books(&self) -> (r: bool)
        ensures
            r == (self@.start.book != self@.end.book),
    {
        self.start.book != self.end.book
    }

    /// Whether `verse` lies within the range.
    pub fn contains(&self, verse: &Locator) -> (r: bool)
        ensures
            r == span_contains(self@, verse@),
    {
        !verse.precedes(&self.start) && !self.end.precedes(verse)
    }

    /// A range is its content: two with the same content are equal.
    pub proof fn lemma_view_determines(a: LocatorRange, b: LocatorRange)
        requires
            a@ == b@,
        ensures
            a == b,
    {
        Locator::lemma_view_determines(a.start, b.start);
        Locator::lemma_view_determines(a.end, b.end);
    }
}

} // verus!
