use scripture::canon::{normalize, Book, CanonBound, CanonError, CanonRegistry, OutOfCanon};
use scripture::standard::{standard_books, standard_canon, BOOK_COUNT};

fn book(ordinal: usize, name: &str, aliases: &[&str], verse_counts: &[u32]) -> Book {
    Book {
        ordinal,
        name: name.to_string(),
        aliases: aliases.iter().map(|a| a.to_string()).collect(),
        verse_counts: verse_counts.to_vec(),
    }
}

fn text(chars: &[char]) -> String {
    chars.iter().collect()
}

#[test]
fn standard_canon_is_valid() {
    let canon = standard_canon().expect("the standard table is a canon");
    assert_eq!(canon.book_count(), BOOK_COUNT);
    assert_eq!(canon.books().len(), 66);
}

#[test]
fn standard_books_are_in_canonical_order() {
    let books = standard_books();
    assert_eq!(books.len(), 66);
    for (i, b) in books.iter().enumerate() {
        assert_eq!(b.ordinal, i);
    }
    assert_eq!(books[0].name, "Genesis");
    assert_eq!(books[18].name, "Psalms");
    assert_eq!(books[38].name, "Malachi");
    assert_eq!(books[39].name, "Matthew");
    assert_eq!(books[42].name, "John");
    assert_eq!(books[61].name, "I John");
    assert_eq!(books[65].name, "Revelation");
}

#[test]
fn standard_books_have_the_known_sizes() {
    let books = standard_books();
    let chapters: usize = books.iter().map(|b| b.verse_counts.len()).sum();
    let verses: u64 = books.iter().flat_map(|b| b.verse_counts.iter()).map(|v| *v as u64).sum();
    assert_eq!(chapters, 1189);
    assert_eq!(verses, 31102);
    assert_eq!(books[0].verse_counts.len(), 50);
    assert_eq!(books[18].verse_counts.len(), 150);
    assert_eq!(books[18].verse_counts[118], 176);
    assert_eq!(books[42].verse_counts[2], 36);
    assert_eq!(books[65].verse_counts.len(), 22);
}

#[test]
fn every_name_and_alias_finds_its_book() {
    let canon = standard_canon().unwrap();
    for b in standard_books() {
        let found = canon.find_book(&b.name).expect("display name is found");
        assert_eq!(found.ordinal, b.ordinal);
        assert_eq!(found, &b);
        for alias in &b.aliases {
            let found = canon.find_book(alias).expect("alias is found");
            assert_eq!(found.ordinal, b.ordinal, "alias {}", alias);
        }
    }
}

#[test]
fn find_book_ignores_case_periods_and_blank_space() {
    let canon = standard_canon().unwrap();
    assert_eq!(canon.find_book("genesis").unwrap().ordinal, 0);
    assert_eq!(canon.find_book("  GENESIS  ").unwrap().ordinal, 0);
    assert_eq!(canon.find_book("Gen.").unwrap().ordinal, 0);
    assert_eq!(canon.find_book("song   of \t solomon").unwrap().ordinal, 21);
    assert_eq!(canon.find_book("1 john").unwrap().ordinal, 61);
    assert_eq!(canon.find_book("i. john").unwrap().ordinal, 61);
    assert_eq!(canon.find_book("JN").unwrap().ordinal, 42);
}

#[test]
fn find_book_matches_whole_names_only() {
    let canon = standard_canon().unwrap();
    assert!(canon.find_book("Genes").is_none());
    assert!(canon.find_book("Genesiss").is_none());
    assert!(canon.find_book("Gen esis").is_none());
    assert!(canon.find_book("Gen,").is_none());
    assert!(canon.find_book("").is_none());
    assert!(canon.find_book("Hezekiah").is_none());
}

#[test]
fn normalize_gives_the_compared_form() {
    assert_eq!(text(&normalize("Genesis")), "genesis");
    assert_eq!(text(&normalize("  St.  John \t the\nDivine ")), "st john the divine");
    assert_eq!(text(&normalize("1 Sam.")), "1 sam");
    assert_eq!(text(&normalize(" . ")), "");
    assert_eq!(text(&normalize("")), "");
    assert_eq!(text(&normalize("a.b")), "ab");
}

#[test]
fn chapter_and_verse_counts() {
    let canon = standard_canon().unwrap();
    assert_eq!(canon.chapter_count(0), Ok(50));
    assert_eq!(canon.chapter_count(42), Ok(21));
    assert_eq!(canon.verse_count(0, 1), Ok(31));
    assert_eq!(canon.verse_count(42, 3), Ok(36));
    assert_eq!(canon.verse_count(18, 119), Ok(176));
    assert_eq!(canon.verse_count(65, 22), Ok(21));
}

#[test]
fn counts_out_of_canon() {
    let canon = standard_canon().unwrap();
    assert_eq!(
        canon.chapter_count(66),
        Err(OutOfCanon { bound: CanonBound::Book, given: 66, limit: 66 })
    );
    assert_eq!(
        canon.verse_count(66, 1),
        Err(OutOfCanon { bound: CanonBound::Book, given: 66, limit: 66 })
    );
    assert_eq!(
        canon.verse_count(42, 22),
        Err(OutOfCanon { bound: CanonBound::Chapter, given: 22, limit: 21 })
    );
    assert_eq!(
        canon.verse_count(42, 0),
        Err(OutOfCanon { bound: CanonBound::Chapter, given: 0, limit: 21 })
    );
    assert_eq!(
        canon.book(70).err(),
        Some(OutOfCanon { bound: CanonBound::Book, given: 70, limit: 66 })
    );
    assert_eq!(canon.book(42).unwrap().name, "John");
}

#[test]
fn new_accepts_a_small_table() {
    let canon = CanonRegistry::new(vec![
        book(0, "Alpha", &["Al", "A"], &[3, 2]),
        book(1, "Beta", &[], &[5]),
    ])
    .unwrap();
    assert_eq!(canon.book_count(), 2);
    assert_eq!(canon.find_book("al").unwrap().ordinal, 0);
    assert_eq!(canon.find_book("beta").unwrap().ordinal, 1);
    assert_eq!(canon.verse_count(0, 2), Ok(2));
}

#[test]
fn new_accepts_the_empty_table() {
    let canon = CanonRegistry::new(Vec::new()).unwrap();
    assert_eq!(canon.book_count(), 0);
    assert!(canon.find_book("Genesis").is_none());
}

#[test]
fn new_rejects_a_misplaced_book() {
    let r = CanonRegistry::new(vec![book(0, "Alpha", &[], &[3]), book(2, "Beta", &[], &[5])]);
    assert_eq!(r.err(), Some(CanonError::Misplaced { book: 1 }));
}

#[test]
fn new_rejects_a_book_without_chapters() {
    let r = CanonRegistry::new(vec![book(0, "Alpha", &[], &[3]), book(1, "Beta", &[], &[])]);
    assert_eq!(r.err(), Some(CanonError::ChapterCount { book: 1 }));
}

#[test]
fn new_rejects_an_empty_chapter() {
    let r = CanonRegistry::new(vec![book(0, "Alpha", &[], &[3, 4, 0, 0])]);
    assert_eq!(r.err(), Some(CanonError::EmptyChapter { book: 0, chapter: 3 }));
}

#[test]
fn new_rejects_a_shared_name() {
    let r = CanonRegistry::new(vec![
        book(0, "Alpha", &["A."], &[3]),
        book(1, "Beta", &["B"], &[5]),
        book(2, "Gamma", &["G", "  a "], &[5]),
    ]);
    assert_eq!(r.err(), Some(CanonError::SharedName { book: 2, earlier: 0 }));
}

#[test]
fn new_reports_the_first_defect() {
    let r = CanonRegistry::new(vec![
        book(0, "Alpha", &[], &[3]),
        book(1, "alpha", &[], &[0]),
        book(5, "Gamma", &[], &[]),
    ]);
    assert_eq!(r.err(), Some(CanonError::EmptyChapter { book: 1, chapter: 1 }));
}

#[test]
fn a_book_may_repeat_its_own_name() {
    let canon = CanonRegistry::new(vec![book(0, "Alpha", &["alpha", "ALPHA."], &[3])]).unwrap();
    assert_eq!(canon.find_book("Alpha").unwrap().ordinal, 0);
}
