use scripture::canon::{CanonBound, CanonRegistry, OutOfCanon};
use scripture::locator::{Locator, LocatorRange};
use scripture::parser::{parse, RawReference, Scope, SyntaxError, SyntaxErrorKind};
use scripture::resolver::{resolve, resolve_reference, ReferenceError, ResolveError};
use scripture::standard::{standard_books, standard_canon};
use scripture::writing::write_reference;

const GENESIS: usize = 0;
const EXODUS: usize = 1;
const JOHN: usize = 42;

fn canon() -> CanonRegistry {
    standard_canon().unwrap()
}

fn ends(range: &LocatorRange) -> ((usize, u32, u32), (usize, u32, u32)) {
    let s = range.start();
    let e = range.end();
    ((s.book(), s.chapter(), s.verse()), (e.book(), e.chapter(), e.verse()))
}

fn resolved(text: &str) -> ((usize, u32, u32), (usize, u32, u32)) {
    ends(&resolve_reference(&canon(), text).unwrap())
}

fn refused(text: &str) -> ReferenceError {
    resolve_reference(&canon(), text).unwrap_err()
}

fn chapter_fault(given: usize, limit: usize) -> ReferenceError {
    ReferenceError::Resolve(ResolveError::OutOfCanon(OutOfCanon {
        bound: CanonBound::Chapter,
        given,
        limit,
    }))
}

fn verse_fault(given: usize, limit: usize) -> ReferenceError {
    ReferenceError::Resolve(ResolveError::OutOfCanon(OutOfCanon {
        bound: CanonBound::Verse,
        given,
        limit,
    }))
}

#[test]
fn resolve_genesis_one_one() {
    assert_eq!(resolved("Genesis 1:1"), ((GENESIS, 1, 1), (GENESIS, 1, 1)));
}

#[test]
fn resolve_parsed_verse_range() {
    let c = canon();
    let raw = parse("John 3:16-17").unwrap();
    let range = resolve(&raw, &c).unwrap();
    assert_eq!(ends(&range), ((JOHN, 3, 16), (JOHN, 3, 17)));
    assert!(!range.spans_books());
}

#[test]
fn book_alone_is_the_whole_book() {
    assert_eq!(resolved("Genesis"), ((GENESIS, 1, 1), (GENESIS, 50, 26)));
    assert_eq!(resolved("John"), ((JOHN, 1, 1), (JOHN, 21, 25)));
    assert_eq!(resolved("Jude"), ((64, 1, 1), (64, 1, 25)));
    assert_eq!(resolved("rev."), ((65, 1, 1), (65, 22, 21)));
}

#[test]
fn book_alone_spans_every_book_exactly() {
    let c = canon();
    for b in standard_books() {
        let range = resolve_reference(&c, &b.name).unwrap();
        let chapters = b.verse_counts.len() as u32;
        let last = b.verse_counts[b.verse_counts.len() - 1];
        assert_eq!(ends(&range), ((b.ordinal, 1, 1), (b.ordinal, chapters, last)));
    }
}

#[test]
fn book_and_chapter_is_the_whole_chapter() {
    assert_eq!(resolved("John 3"), ((JOHN, 3, 1), (JOHN, 3, 36)));
    assert_eq!(resolved("Psalms 119"), ((18, 119, 1), (18, 119, 176)));
    assert_eq!(resolved("Ps 117"), ((18, 117, 1), (18, 117, 2)));
}

#[test]
fn descending_verses_are_an_inverted_range() {
    assert_eq!(refused("John 3:17-16"), ReferenceError::Resolve(ResolveError::InvertedRange));
    assert_eq!(refused("John 3:40-39"), ReferenceError::Resolve(ResolveError::InvertedRange));
    assert_eq!(refused("John 3:1-0"), ReferenceError::Resolve(ResolveError::InvertedRange));
}

#[test]
fn chapter_beyond_the_book_is_out_of_canon() {
    assert_eq!(refused("John 22"), chapter_fault(22, 21));
    assert_eq!(refused("John 22:1"), chapter_fault(22, 21));
    assert_eq!(refused("John 22:5-3"), chapter_fault(22, 21));
    assert_eq!(refused("John 0"), chapter_fault(0, 21));
    assert_eq!(refused("John 3:16-22:1"), chapter_fault(22, 21));
    assert_eq!(refused("Genesis 51:1-52:1"), chapter_fault(51, 50));
}

#[test]
fn verse_beyond_the_chapter_is_out_of_canon() {
    assert_eq!(refused("John 3:37"), verse_fault(37, 36));
    assert_eq!(refused("John 3:0"), verse_fault(0, 36));
    assert_eq!(refused("John 3:16-37"), verse_fault(37, 36));
    assert_eq!(refused("John 3:0-5"), verse_fault(0, 36));
    assert_eq!(refused("John 3:16-4:55"), verse_fault(55, 54));
    assert_eq!(refused("John 3:37-4:1"), verse_fault(37, 36));
}

#[test]
fn unknown_book() {
    assert_eq!(refused("Hezekiah 3:16"), ReferenceError::Resolve(ResolveError::UnknownBook));
    assert_eq!(refused("Hezekiah 99:99-1"), ReferenceError::Resolve(ResolveError::UnknownBook));
    assert_eq!(refused("Joh n 3"), ReferenceError::Resolve(ResolveError::UnknownBook));
}

#[test]
fn syntax_errors_come_first() {
    assert_eq!(
        refused("Hezekiah 3:"),
        ReferenceError::Syntax(SyntaxError { kind: SyntaxErrorKind::MissingNumber, position: 11 })
    );
    assert_eq!(
        refused(""),
        ReferenceError::Syntax(SyntaxError { kind: SyntaxErrorKind::MissingBook, position: 0 })
    );
}

#[test]
fn range_into_another_chapter() {
    assert_eq!(resolved("John 3:16-4:2"), ((JOHN, 3, 16), (JOHN, 4, 2)));
    assert_eq!(resolved("John 3:16-3:16"), ((JOHN, 3, 16), (JOHN, 3, 16)));
    assert_eq!(resolved("Genesis 1:1\u{2013}50:26"), ((GENESIS, 1, 1), (GENESIS, 50, 26)));
}

#[test]
fn range_into_an_earlier_chapter_is_inverted() {
    assert_eq!(refused("John 4:2-3:16"), ReferenceError::Resolve(ResolveError::InvertedRange));
    assert_eq!(refused("John 4:2-4:1"), ReferenceError::Resolve(ResolveError::InvertedRange));
    assert_eq!(refused("John 4:99-3:99"), ReferenceError::Resolve(ResolveError::InvertedRange));
}

#[test]
fn single_verse_range_of_equal_ends() {
    assert_eq!(resolved("John 3:16-16"), ((JOHN, 3, 16), (JOHN, 3, 16)));
}

#[test]
fn resolve_accepts_aliases() {
    assert_eq!(resolved("jn 3:16"), ((JOHN, 3, 16), (JOHN, 3, 16)));
    assert_eq!(resolved("Gen. 1:1-5"), ((GENESIS, 1, 1), (GENESIS, 1, 5)));
    assert_eq!(resolved("I Jn 5:7"), ((61, 5, 7), (61, 5, 7)));
    assert_eq!(resolved("  song  of songs 2:1"), ((21, 2, 1), (21, 2, 1)));
}

#[test]
fn resolve_raw_reference_with_a_numbered_alias() {
    let c = canon();
    let raw = RawReference { book: "1 John".to_string(), scope: Scope::Verse { chapter: 1, verse: 9 } };
    assert_eq!(ends(&resolve(&raw, &c).unwrap()), ((61, 1, 9), (61, 1, 9)));
}

#[test]
fn locate_checks_against_the_canon() {
    let c = canon();
    let at = c.locate(JOHN, 3, 16).unwrap();
    assert_eq!((at.book(), at.chapter(), at.verse()), (JOHN, 3, 16));
    assert_eq!(
        c.locate(66, 1, 1),
        Err(ResolveError::OutOfCanon(OutOfCanon { bound: CanonBound::Book, given: 66, limit: 66 }))
    );
    assert_eq!(
        c.locate(JOHN, 22, 1),
        Err(ResolveError::OutOfCanon(OutOfCanon { bound: CanonBound::Chapter, given: 22, limit: 21 }))
    );
    assert_eq!(
        c.locate(JOHN, 3, 37),
        Err(ResolveError::OutOfCanon(OutOfCanon { bound: CanonBound::Verse, given: 37, limit: 36 }))
    );
    assert_eq!(
        c.locate(JOHN, 0, 0),
        Err(ResolveError::OutOfCanon(OutOfCanon { bound: CanonBound::Chapter, given: 0, limit: 21 }))
    );
}

#[test]
fn every_resolved_locator_is_within_the_canon() {
    let c = canon();
    for text in ["Genesis", "John 3", "John 3:16", "John 3:16-17", "John 3:16-4:2", "Ps 119:1-176"] {
        let range = resolve_reference(&c, text).unwrap();
        for at in [range.start(), range.end()] {
            assert!(at.chapter() >= 1 && at.chapter() <= c.chapter_count(at.book()).unwrap());
            assert!(at.verse() >= 1 && at.verse() <= c.verse_count(at.book(), at.chapter()).unwrap());
            assert_eq!(c.check(&at), Ok(()));
        }
        assert!(!range.end().precedes(&range.start()));
    }
}

#[test]
fn format_writes_name_chapter_and_verse() {
    let c = canon();
    assert_eq!(c.format(&c.locate(JOHN, 3, 16).unwrap()).unwrap(), "John 3:16");
    assert_eq!(c.format(&c.locate(GENESIS, 1, 1).unwrap()).unwrap(), "Genesis 1:1");
    assert_eq!(c.format(&c.locate(18, 119, 176).unwrap()).unwrap(), "Psalms 119:176");
    assert_eq!(c.format(&c.locate(61, 5, 21).unwrap()).unwrap(), "I John 5:21");
    assert_eq!(c.format(&c.locate(21, 8, 14).unwrap()).unwrap(), "Song of Solomon 8:14");
}

#[test]
fn format_refuses_a_locator_of_another_canon() {
    let c = canon();
    let small = CanonRegistry::new(vec![scripture::canon::Book {
        ordinal: 0,
        name: "Alpha".to_string(),
        aliases: Vec::new(),
        verse_counts: vec![3],
    }])
    .unwrap();
    let at = c.locate(JOHN, 3, 16).unwrap();
    assert_eq!(
        small.format(&at),
        Err(ResolveError::OutOfCanon(OutOfCanon { bound: CanonBound::Book, given: 42, limit: 1 }))
    );
}

#[test]
fn write_reference_writes_every_scope() {
    assert_eq!(write_reference("John", Scope::WholeBook), "John");
    assert_eq!(write_reference("John", Scope::Chapter { chapter: 3 }), "John 3");
    assert_eq!(write_reference("John", Scope::Verse { chapter: 3, verse: 16 }), "John 3:16");
    assert_eq!(
        write_reference("John", Scope::Verses { chapter: 3, first: 16, last: 17 }),
        "John 3:16-17"
    );
    assert_eq!(
        write_reference(
            "John",
            Scope::Span { chapter: 3, verse: 16, end_chapter: 4, end_verse: 2 }
        ),
        "John 3:16-4:2"
    );
    assert_eq!(
        write_reference("Psalms", Scope::Verse { chapter: 0, verse: 4294967295 }),
        "Psalms 0:4294967295"
    );
    assert_eq!(write_reference("X", Scope::Chapter { chapter: 10 }), "X 10");
    assert_eq!(write_reference("X", Scope::Chapter { chapter: 9 }), "X 9");
    assert_eq!(write_reference("X", Scope::Chapter { chapter: 1000 }), "X 1000");
}

#[test]
fn what_is_written_is_read_back() {
    for scope in [
        Scope::WholeBook,
        Scope::Chapter { chapter: 7 },
        Scope::Verse { chapter: 120, verse: 3 },
        Scope::Verses { chapter: 1, first: 20, last: 10 },
        Scope::Span { chapter: 3, verse: 16, end_chapter: 4, end_verse: 2 },
    ] {
        for name in ["John", "Song of Solomon", "II Kings", "St. John  "] {
            let raw = parse(&write_reference(name, scope)).unwrap();
            assert_eq!(raw.book, name.trim_end());
            assert_eq!(raw.scope, scope);
        }
    }
}

#[test]
fn round_trip_of_every_first_and_last_verse() {
    let c = canon();
    for b in standard_books() {
        let chapters = b.verse_counts.len() as u32;
        let last = b.verse_counts[b.verse_counts.len() - 1];
        for (chapter, verse) in [(1, 1), (chapters, last)] {
            let at = c.locate(b.ordinal, chapter, verse).unwrap();
            let text = c.format(&at).unwrap();
            let range = resolve_reference(&c, &text).unwrap();
            assert_eq!(range.start(), at, "{}", text);
            assert_eq!(range.end(), at, "{}", text);
        }
    }
}

#[test]
fn round_trip_of_every_verse_of_a_book() {
    let c = canon();
    let john = &standard_books()[JOHN];
    for (i, count) in john.verse_counts.iter().enumerate() {
        for verse in 1..=*count {
            let at = c.locate(JOHN, i as u32 + 1, verse).unwrap();
            let range = resolve_reference(&c, &c.format(&at).unwrap()).unwrap();
            assert_eq!((range.start(), range.end()), (at, at));
        }
    }
}

#[test]
fn range_within_a_book() {
    let c = canon();
    let a = c.locate(JOHN, 3, 16).unwrap();
    let b = c.locate(JOHN, 4, 2).unwrap();
    let r = c.range(a, b, false).unwrap();
    assert_eq!(ends(&r), ((JOHN, 3, 16), (JOHN, 4, 2)));
    assert!(r.contains(&c.locate(JOHN, 3, 36).unwrap()));
    assert!(r.contains(&a));
    assert!(r.contains(&b));
    assert!(!r.contains(&c.locate(JOHN, 3, 15).unwrap()));
    assert!(!r.contains(&c.locate(JOHN, 4, 3).unwrap()));
    assert_eq!(c.range(b, a, false), Err(ResolveError::InvertedRange));
    assert_eq!(c.range(b, a, true), Err(ResolveError::InvertedRange));
    assert_eq!(ends(&c.range(a, a, false).unwrap()), ((JOHN, 3, 16), (JOHN, 3, 16)));
}

#[test]
fn range_across_books_is_a_matter_of_policy() {
    let c = canon();
    let a = c.locate(GENESIS, 50, 1).unwrap();
    let b = c.locate(EXODUS, 1, 22).unwrap();
    assert_eq!(c.range(a, b, false), Err(ResolveError::InvertedRange));
    let r = c.range(a, b, true).unwrap();
    assert!(r.spans_books());
    assert_eq!(ends(&r), ((GENESIS, 50, 1), (EXODUS, 1, 22)));
    assert_eq!(c.range(b, a, true), Err(ResolveError::InvertedRange));
}

#[test]
fn locators_are_ordered_by_book_chapter_and_verse() {
    let c = canon();
    let a: Locator = c.locate(GENESIS, 50, 26).unwrap();
    let b = c.locate(EXODUS, 1, 1).unwrap();
    let d = c.locate(EXODUS, 1, 2).unwrap();
    let e = c.locate(EXODUS, 2, 1).unwrap();
    assert!(a.precedes(&b) && b.precedes(&d) && d.precedes(&e) && a.precedes(&e));
    assert!(!b.precedes(&a) && !b.precedes(&b));
    assert!(b.same(&b) && !b.same(&d));
}
