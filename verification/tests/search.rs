use scripture::canon::CanonRegistry;
use scripture::locator::Locator;
use scripture::ranking::{Mark, SearchHit, Verse};
use scripture::search::{make_snippet, MalformedQuery, Posting, SearchIndex, DEFAULT_SNIPPET_LIMIT};
use scripture::source::{select_verses, ScriptureSource};
use scripture::standard::standard_canon;
use scripture::words::{is_stop, split_words, terms};

const GENESIS: usize = 0;
const JOHN: usize = 42;

fn canon() -> CanonRegistry {
    standard_canon().unwrap()
}

fn verse(c: &CanonRegistry, book: usize, chapter: u32, verse: u32, text: &str) -> Verse {
    Verse { locator: c.locate(book, chapter, verse).unwrap(), text: text.to_string() }
}

fn corpus(c: &CanonRegistry) -> Vec<Verse> {
    vec![
        verse(c, GENESIS, 1, 1, "In the beginning God created the heaven and the earth."),
        verse(c, GENESIS, 1, 2, "And the earth was without form, and void; and darkness was upon the face of the deep."),
        verse(c, GENESIS, 1, 3, "And God said, Let there be light: and there was light."),
        verse(c, JOHN, 1, 1, "In the beginning was the Word, and the Word was with God, and the Word was God."),
        verse(c, JOHN, 11, 35, "Jesus wept."),
    ]
}

fn chars(s: &str) -> Vec<char> {
    s.chars().collect()
}

fn words_of(list: &[&str]) -> Vec<Vec<char>> {
    list.iter().map(|w| chars(w)).collect()
}

fn places(hits: &[SearchHit]) -> Vec<(usize, u32, u32)> {
    hits.iter().map(|h| (h.locator.book(), h.locator.chapter(), h.locator.verse())).collect()
}

#[test]
fn search_finds_the_one_verse() {
    let c = canon();
    let index = SearchIndex::build(vec![verse(&c, GENESIS, 1, 1, "In the beginning...")]);
    let hits = index.search("beginning", 10);
    assert_eq!(hits.len(), 1);
    assert_eq!(hits[0].locator, c.locate(GENESIS, 1, 1).unwrap());
    assert!(hits[0].score > 0);
    assert_eq!(hits[0].score, 1);
    assert_eq!(hits[0].position, 0);
    assert_eq!(hits[0].snippet.text, "In the beginning...");
    assert_eq!(hits[0].snippet.marks, vec![Mark { start: 7, end: 19 }]);
}

#[test]
fn search_is_repeatable() {
    let c = canon();
    let index = SearchIndex::build(corpus(&c));
    for query in ["god", "the word was god", "light earth", "", "nothing here"] {
        assert_eq!(index.search(query, 10), index.search(query, 10));
        assert_eq!(index.search(query, 2), index.search(query, 2));
    }
}

#[test]
fn search_for_absent_terms_is_empty() {
    let c = canon();
    let index = SearchIndex::build(corpus(&c));
    assert!(index.search("leviathan", 10).is_empty());
    assert!(index.search("leviathan behemoth", 10).is_empty());
    assert!(index.search("begin", 10).is_empty());
}

#[test]
fn search_without_terms_is_empty() {
    let c = canon();
    let index = SearchIndex::build(corpus(&c));
    assert!(index.search("", 10).is_empty());
    assert!(index.search("   ", 10).is_empty());
    assert!(index.search("the and of", 10).is_empty());
    assert!(index.search("... !!! ,", 10).is_empty());
}

#[test]
fn search_in_an_empty_corpus_is_empty() {
    let index = SearchIndex::build(Vec::new());
    assert!(index.search("god", 10).is_empty());
}

#[test]
fn search_with_limit_zero_is_empty() {
    let c = canon();
    let index = SearchIndex::build(corpus(&c));
    assert!(index.search("god", 0).is_empty());
}

#[test]
fn score_is_the_sum_of_frequencies() {
    let c = canon();
    let index = SearchIndex::build(corpus(&c));
    let hits = index.search("word", 10);
    assert_eq!(places(&hits), vec![(JOHN, 1, 1)]);
    assert_eq!(hits[0].score, 3);
    let hits = index.search("word god", 10);
    assert_eq!(places(&hits), vec![(JOHN, 1, 1), (GENESIS, 1, 1), (GENESIS, 1, 3)]);
    assert_eq!(hits.iter().map(|h| h.score).collect::<Vec<u64>>(), vec![5, 1, 1]);
    let hits = index.search("word word", 10);
    assert_eq!(hits[0].score, 6);
}

#[test]
fn hits_come_by_score_then_by_locator() {
    let c = canon();
    let index = SearchIndex::build(vec![
        verse(&c, JOHN, 1, 1, "light"),
        verse(&c, GENESIS, 1, 3, "light light"),
        verse(&c, GENESIS, 1, 2, "light"),
        verse(&c, GENESIS, 1, 1, "dark"),
        verse(&c, JOHN, 1, 2, "light light light"),
    ]);
    let hits = index.search("light", 10);
    assert_eq!(places(&hits), vec![(JOHN, 1, 2), (GENESIS, 1, 3), (GENESIS, 1, 2), (JOHN, 1, 1)]);
    assert_eq!(hits.iter().map(|h| h.score).collect::<Vec<u64>>(), vec![3, 2, 1, 1]);
    assert_eq!(hits.iter().map(|h| h.position).collect::<Vec<usize>>(), vec![4, 1, 2, 0]);
}

#[test]
fn equal_locators_come_in_corpus_order() {
    let c = canon();
    let index = SearchIndex::build(vec![
        verse(&c, JOHN, 1, 1, "light first"),
        verse(&c, JOHN, 1, 1, "light second"),
    ]);
    let hits = index.search("light", 10);
    assert_eq!(hits.iter().map(|h| h.position).collect::<Vec<usize>>(), vec![0, 1]);
}

#[test]
fn limit_keeps_the_best() {
    let c = canon();
    let index = SearchIndex::build(corpus(&c));
    let all = index.search("god earth light", 10);
    assert_eq!(places(&all), vec![(GENESIS, 1, 3), (GENESIS, 1, 1), (JOHN, 1, 1), (GENESIS, 1, 2)]);
    assert_eq!(all.iter().map(|h| h.score).collect::<Vec<u64>>(), vec![3, 2, 2, 1]);
    for limit in 0..6 {
        let hits = index.search("god earth light", limit);
        assert_eq!(hits.len(), limit.min(4));
        assert_eq!(hits[..], all[..hits.len()]);
    }
}

#[test]
fn search_ignores_case_and_punctuation() {
    let c = canon();
    let index = SearchIndex::build(corpus(&c));
    assert_eq!(places(&index.search("WEPT", 10)), vec![(JOHN, 11, 35)]);
    assert_eq!(places(&index.search("\"wept!\"", 10)), vec![(JOHN, 11, 35)]);
    assert_eq!(places(&index.search("void", 10)), vec![(GENESIS, 1, 2)]);
    assert_eq!(places(&index.search("light:", 10)), vec![(GENESIS, 1, 3)]);
}

#[test]
fn stop_words_do_not_match() {
    let c = canon();
    let index = SearchIndex::build(corpus(&c));
    assert!(index.search("the", 10).is_empty());
    assert_eq!(places(&index.search("the deep", 10)), vec![(GENESIS, 1, 2)]);
    assert_eq!(index.search("the deep", 10)[0].score, 1);
}

#[test]
fn snippet_of_a_short_text_is_the_text() {
    let c = canon();
    let index = SearchIndex::build(corpus(&c));
    let hits = index.search("word", 10);
    assert_eq!(
        hits[0].snippet.text,
        "In the beginning was the Word, and the Word was with God, and the Word was God."
    );
    assert_eq!(
        hits[0].snippet.marks,
        vec![Mark { start: 25, end: 30 }, Mark { start: 39, end: 43 }, Mark { start: 66, end: 70 }]
    );
}

#[test]
fn snippet_is_bounded() {
    let c = canon();
    let long = "light ".repeat(100);
    let index = SearchIndex::build_with_limit(vec![verse(&c, GENESIS, 1, 3, &long)], 20);
    let hits = index.search("light", 10);
    assert_eq!(hits[0].score, 100);
    assert_eq!(hits[0].snippet.text, "light light light li");
    assert_eq!(
        hits[0].snippet.marks,
        vec![Mark { start: 0, end: 5 }, Mark { start: 6, end: 11 }, Mark { start: 12, end: 17 }]
    );
    let index = SearchIndex::build(vec![verse(&c, GENESIS, 1, 3, &long)]);
    let hits = index.search("light", 10);
    assert_eq!(hits[0].snippet.text.chars().count(), DEFAULT_SNIPPET_LIMIT);
    assert_eq!(hits[0].snippet.marks.len(), 40);
}

#[test]
fn snippet_limit_counts_characters() {
    let s = make_snippet("\u{00e4}\u{00e4}\u{00e4} light on", &words_of(&["light"]), 9);
    assert_eq!(s.text, "\u{00e4}\u{00e4}\u{00e4} light");
    assert_eq!(s.marks, vec![Mark { start: 4, end: 9 }]);
    let s = make_snippet("light", &words_of(&["light"]), 0);
    assert_eq!(s.text, "");
    assert!(s.marks.is_empty());
}

#[test]
fn words_have_bounds_and_terms() {
    let list = split_words(&chars("  In the  \"Beginning,\" -- God's 1st"));
    let got: Vec<(usize, usize, String)> =
        list.iter().map(|w| (w.start, w.end, w.term.iter().collect())).collect();
    assert_eq!(
        got,
        vec![
            (2, 4, "in".to_string()),
            (5, 8, "the".to_string()),
            (10, 22, "beginning".to_string()),
            (23, 25, "".to_string()),
            (26, 31, "gods".to_string()),
            (32, 35, "1st".to_string()),
        ]
    );
    assert!(split_words(&chars("")).is_empty());
    assert!(split_words(&chars(" \t\n")).is_empty());
}

#[test]
fn terms_drop_stop_words_and_punctuation() {
    assert_eq!(
        terms("In the beginning God created the heaven and the earth."),
        words_of(&["beginning", "god", "created", "heaven", "earth"])
    );
    assert_eq!(terms("A -- an AND"), Vec::<Vec<char>>::new());
    assert_eq!(terms("\u{201c}Light\u{201d} \u{2014} li\u{00e9}"), words_of(&["light", "li\u{00e9}"]));
    assert_eq!(terms("to be or not to be"), words_of(&["be", "or", "not", "be"]));
}

#[test]
fn stop_words_are_seven() {
    for w in ["a", "an", "and", "in", "of", "the", "to"] {
        assert!(is_stop(&chars(w)), "{}", w);
    }
    for w in ["", "on", "thee", "The", "t", "ann"] {
        assert!(!is_stop(&chars(w)), "{}", w);
    }
}

#[test]
fn index_keeps_the_corpus() {
    let c = canon();
    let index = SearchIndex::build(corpus(&c));
    assert_eq!(index.verses(), &corpus(&c));
}

#[test]
fn select_verses_within_a_range() {
    let c = canon();
    let all = corpus(&c);
    let range = c.range(c.locate(GENESIS, 1, 2).unwrap(), c.locate(GENESIS, 1, 31).unwrap(), false).unwrap();
    assert_eq!(select_verses(&all, &range), all[1..3].to_vec());
    let range = c.range(c.locate(GENESIS, 2, 1).unwrap(), c.locate(GENESIS, 2, 2).unwrap(), false).unwrap();
    assert!(select_verses(&all, &range).is_empty());
    let range = c.range(c.locate(GENESIS, 1, 1).unwrap(), c.locate(65, 22, 21).unwrap(), true).unwrap();
    assert_eq!(select_verses(&all, &range), all);
}

#[test]
fn source_resolves_and_searches() {
    let c = canon();
    let all = corpus(&c);
    let source = ScriptureSource::new(canon(), corpus(&c));
    assert_eq!(source.list_books().len(), 66);
    assert_eq!(source.get_book("jn").unwrap().name, "John");
    assert!(source.get_book("nope").is_none());
    assert_eq!(source.canon().book_count(), 66);
    let range = source.resolve_reference("Genesis 1:1").unwrap();
    let at: Locator = c.locate(GENESIS, 1, 1).unwrap();
    assert_eq!((range.start(), range.end()), (at, at));
    assert_eq!(source.fetch_text(&range), all[0..1].to_vec());
    assert_eq!(source.resolve("Genesis 1:2-3").unwrap(), all[1..3].to_vec());
    assert_eq!(source.resolve("John").unwrap(), all[3..5].to_vec());
    assert_eq!(source.resolve("Exodus").unwrap(), Vec::<Verse>::new());
    assert!(source.resolve("Genesis 1:32").is_err());
    assert!(source.resolve(":").is_err());
    let hits = source.search("beginning", 10);
    assert_eq!(places(&hits), vec![(GENESIS, 1, 1), (JOHN, 1, 1)]);
}

#[test]
fn postings_list_verses_and_frequencies() {
    let c = canon();
    let index = SearchIndex::build(corpus(&c));
    assert_eq!(
        index.postings("god"),
        vec![
            Posting { locator: c.locate(GENESIS, 1, 1).unwrap(), frequency: 1 },
            Posting { locator: c.locate(GENESIS, 1, 3).unwrap(), frequency: 1 },
            Posting { locator: c.locate(JOHN, 1, 1).unwrap(), frequency: 2 },
        ]
    );
    assert_eq!(
        index.postings("word"),
        vec![Posting { locator: c.locate(JOHN, 1, 1).unwrap(), frequency: 3 }]
    );
    assert_eq!(
        index.postings("light"),
        vec![Posting { locator: c.locate(GENESIS, 1, 3).unwrap(), frequency: 2 }]
    );
}

#[test]
fn postings_of_what_is_not_indexed_are_empty() {
    let c = canon();
    let index = SearchIndex::build(corpus(&c));
    assert!(index.postings("leviathan").is_empty());
    assert!(index.postings("the").is_empty());
    assert!(index.postings("God").is_empty());
    assert!(index.postings("").is_empty());
    assert!(SearchIndex::build(Vec::new()).postings("god").is_empty());
}

#[test]
fn a_large_vocabulary_is_found_term_by_term() {
    let c = canon();
    let mut verses = Vec::new();
    let mut n = 0;
    for chapter in 1..=21 {
        let count = c.verse_count(JOHN, chapter).unwrap();
        for v in 1..=count {
            let words: Vec<String> = (0..12).map(|k| format!("w{}x{}", n, k)).collect();
            verses.push(verse(&c, JOHN, chapter, v, &format!("{} common", words.join(" "))));
            n += 1;
        }
    }
    assert_eq!(n, 879);
    let index = SearchIndex::build(verses);
    for i in [0, 1, 17, 400, 878] {
        for k in [0, 5, 11] {
            let hits = index.search(&format!("w{}x{}", i, k), 5);
            assert_eq!(hits.len(), 1);
            assert_eq!(hits[0].position, i);
            assert_eq!(index.postings(&format!("w{}x{}", i, k)).len(), 1);
        }
    }
    assert_eq!(index.postings("common").len(), 879);
    let hits = index.search("common", 3);
    assert_eq!(places(&hits), vec![(JOHN, 1, 1), (JOHN, 1, 2), (JOHN, 1, 3)]);
    assert!(index.search("w879x0", 5).is_empty());
}

#[test]
fn search_bytes_takes_utf8() {
    let c = canon();
    let index = SearchIndex::build(corpus(&c));
    assert_eq!(index.search_bytes(b"word god", 10), Ok(index.search("word god", 10)));
    assert_eq!(index.search_bytes("li\u{00e9}".as_bytes(), 10), Ok(Vec::new()));
    assert_eq!(index.search_bytes(b"", 10), Ok(Vec::new()));
    let source = ScriptureSource::new(canon(), corpus(&c));
    assert_eq!(places(&source.search_bytes(b"wept", 10).unwrap()), vec![(JOHN, 11, 35)]);
}

#[test]
fn search_bytes_refuses_what_is_not_utf8() {
    let c = canon();
    let index = SearchIndex::build(corpus(&c));
    assert_eq!(index.search_bytes(&[0xff, b'g', b'o', b'd'], 10), Err(MalformedQuery {}));
    assert_eq!(index.search_bytes(&[b'g', b'o', b'd', 0xc3], 10), Err(MalformedQuery {}));
    assert_eq!(index.search_bytes(&[0xed, 0xa0, 0x80], 10), Err(MalformedQuery {}));
    let source = ScriptureSource::new(canon(), corpus(&c));
    assert_eq!(source.search_bytes(&[0xc0, 0x80], 10), Err(MalformedQuery {}));
}

#[test]
fn marks_cut_the_matching_words_out_of_the_snippet() {
    let c = canon();
    let index = SearchIndex::build(corpus(&c));
    for hit in index.search("god light earth word", 10) {
        let text: Vec<char> = hit.snippet.text.chars().collect();
        assert!(!hit.snippet.marks.is_empty());
        let mut last = 0;
        for m in &hit.snippet.marks {
            assert!(last <= m.start && m.start < m.end && m.end <= text.len());
            let word: String = text[m.start..m.end].iter().collect::<String>().to_lowercase();
            let bare = word.trim_matches(|ch: char| !ch.is_alphanumeric()).to_string();
            assert!(["god", "light", "earth", "word"].contains(&bare.as_str()), "{}", word);
            last = m.end;
        }
    }
}
