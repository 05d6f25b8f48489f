use scripture::parser::{parse, RawReference, Scope, SyntaxError, SyntaxErrorKind};

fn raw(book: &str, scope: Scope) -> RawReference {
    RawReference { book: book.to_string(), scope }
}

fn fails(kind: SyntaxErrorKind, position: usize) -> Result<RawReference, SyntaxError> {
    Err(SyntaxError { kind, position })
}

#[test]
fn parse_verse_range() {
    assert_eq!(
        parse("John 3:16-17"),
        Ok(raw("John", Scope::Verses { chapter: 3, first: 16, last: 17 }))
    );
}

#[test]
fn parse_book_alone() {
    assert_eq!(parse("John"), Ok(raw("John", Scope::WholeBook)));
    assert_eq!(parse("Song of Solomon"), Ok(raw("Song of Solomon", Scope::WholeBook)));
    assert_eq!(parse("John   "), Ok(raw("John", Scope::WholeBook)));
}

#[test]
fn parse_chapter_alone() {
    assert_eq!(parse("John 3"), Ok(raw("John", Scope::Chapter { chapter: 3 })));
    assert_eq!(parse("Psalms 119"), Ok(raw("Psalms", Scope::Chapter { chapter: 119 })));
    assert_eq!(parse("John3"), Ok(raw("John", Scope::Chapter { chapter: 3 })));
}

#[test]
fn parse_single_verse() {
    assert_eq!(parse("Genesis 1:1"), Ok(raw("Genesis", Scope::Verse { chapter: 1, verse: 1 })));
    assert_eq!(parse("John 3:16"), Ok(raw("John", Scope::Verse { chapter: 3, verse: 16 })));
}

#[test]
fn parse_range_into_another_chapter() {
    assert_eq!(
        parse("John 3:16-4:2"),
        Ok(raw("John", Scope::Span { chapter: 3, verse: 16, end_chapter: 4, end_verse: 2 }))
    );
}

#[test]
fn parse_en_dash() {
    assert_eq!(
        parse("Genesis 1:1\u{2013}5"),
        Ok(raw("Genesis", Scope::Verses { chapter: 1, first: 1, last: 5 }))
    );
    assert_eq!(
        parse("Genesis 1:1 \u{2013} 2:3"),
        Ok(raw("Genesis", Scope::Span { chapter: 1, verse: 1, end_chapter: 2, end_verse: 3 }))
    );
}

#[test]
fn parse_ignores_blanks_around_punctuation() {
    assert_eq!(
        parse("John  3 : 16 - 17  "),
        Ok(raw("John", Scope::Verses { chapter: 3, first: 16, last: 17 }))
    );
    assert_eq!(
        parse("John\t3:\n16"),
        Ok(raw("John", Scope::Verse { chapter: 3, verse: 16 }))
    );
}

#[test]
fn parse_keeps_the_book_as_written() {
    assert_eq!(parse("jn. 3"), Ok(raw("jn.", Scope::Chapter { chapter: 3 })));
    assert_eq!(parse(" John 3"), Ok(raw(" John", Scope::Chapter { chapter: 3 })));
    assert_eq!(parse("No Such Book 3"), Ok(raw("No Such Book", Scope::Chapter { chapter: 3 })));
}

#[test]
fn parse_does_not_judge_numbers() {
    assert_eq!(parse("John 0:0"), Ok(raw("John", Scope::Verse { chapter: 0, verse: 0 })));
    assert_eq!(parse("John 007"), Ok(raw("John", Scope::Chapter { chapter: 7 })));
    assert_eq!(
        parse("John 3:17-16"),
        Ok(raw("John", Scope::Verses { chapter: 3, first: 17, last: 16 }))
    );
    assert_eq!(
        parse("John 4294967295"),
        Ok(raw("John", Scope::Chapter { chapter: 4294967295 }))
    );
}

#[test]
fn parse_empty_input() {
    assert_eq!(parse(""), fails(SyntaxErrorKind::MissingBook, 0));
    assert_eq!(parse("   "), fails(SyntaxErrorKind::MissingBook, 0));
}

#[test]
fn parse_missing_book() {
    assert_eq!(parse("3:16"), fails(SyntaxErrorKind::MissingBook, 0));
    assert_eq!(parse("  3:16"), fails(SyntaxErrorKind::MissingBook, 0));
    assert_eq!(parse(":16"), fails(SyntaxErrorKind::MissingBook, 0));
    assert_eq!(parse("1 John 3:16"), fails(SyntaxErrorKind::MissingBook, 0));
}

#[test]
fn parse_numeral_too_large() {
    assert_eq!(parse("John 4294967296"), fails(SyntaxErrorKind::NumeralTooLarge, 5));
    assert_eq!(
        parse("John 3:99999999999999999999999999"),
        fails(SyntaxErrorKind::NumeralTooLarge, 7)
    );
}

#[test]
fn parse_dangling_separator() {
    assert_eq!(parse("John 3:"), fails(SyntaxErrorKind::MissingNumber, 7));
    assert_eq!(parse("John 3:16-"), fails(SyntaxErrorKind::MissingNumber, 10));
    assert_eq!(parse("John 3:16 -  "), fails(SyntaxErrorKind::MissingNumber, 13));
    assert_eq!(parse("John 3:16-4:"), fails(SyntaxErrorKind::MissingNumber, 12));
}

#[test]
fn parse_consecutive_separators() {
    assert_eq!(parse("John 3::16"), fails(SyntaxErrorKind::MissingNumber, 7));
    assert_eq!(parse("John 3:16--17"), fails(SyntaxErrorKind::MissingNumber, 10));
    assert_eq!(parse("John 3:-16"), fails(SyntaxErrorKind::MissingNumber, 7));
    assert_eq!(parse("John :3"), fails(SyntaxErrorKind::MissingNumber, 5));
    assert_eq!(parse("John -3"), fails(SyntaxErrorKind::MissingNumber, 5));
}

#[test]
fn parse_unexpected_character() {
    assert_eq!(parse("John 3 16"), fails(SyntaxErrorKind::UnexpectedCharacter, 7));
    assert_eq!(parse("John 3a"), fails(SyntaxErrorKind::UnexpectedCharacter, 6));
    assert_eq!(parse("John 3-5"), fails(SyntaxErrorKind::UnexpectedCharacter, 6));
    assert_eq!(parse("John 3:16,18"), fails(SyntaxErrorKind::UnexpectedCharacter, 9));
    assert_eq!(parse("John 3:16-17-18"), fails(SyntaxErrorKind::UnexpectedCharacter, 12));
    assert_eq!(parse("John 3:16-4:2:1"), fails(SyntaxErrorKind::UnexpectedCharacter, 13));
    assert_eq!(parse("John 3:16-4:2 x"), fails(SyntaxErrorKind::UnexpectedCharacter, 14));
    assert_eq!(parse("Genesis 50-Exodus 1"), fails(SyntaxErrorKind::UnexpectedCharacter, 10));
}

#[test]
fn parse_counts_positions_in_characters() {
    assert_eq!(parse("Jesaja\u{00e4} 3:"), fails(SyntaxErrorKind::MissingNumber, 10));
    assert_eq!(parse("John 3:16\u{2013}"), fails(SyntaxErrorKind::MissingNumber, 10));
}
