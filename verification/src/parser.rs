//! The grammar of written references: a book name, then optionally a
//! chapter, a verse, and the end of a range.
//!
//! ```text
//! reference := book [ number [ ":" number [ dash number [ ":" number ] ] ] ]
//! ```
//!
//! The book is everything before the first digit or separator, without the
//! blanks at its end. Blanks around numbers and separators do not matter.
//! Nothing here looks at a canon: whether the book exists and has the
//! chapter is for the resolver to say.
use vstd::prelude::*;
use crate::text::{
    is_digit, is_space, is_dash, is_separator, decimal_value, lemma_decimal_value_push,
    is_digit_char, is_space_char, is_dash_char, is_separator_char, chars_of, string_of_range,
};

verus! {

/// What was wrong with a reference.
#[derive(Debug, Clone, Copy, PartialEq, Eq, Structural)]
pub enum SyntaxErrorKind {
    /// No book name before the first digit or separator, or nothing at all.
    MissingBook,
    /// A number was due: after a separator, or where the chapter belongs.
    MissingNumber,
    /// A number too large for a chapter or verse number.
    NumeralTooLarge,
    /// A character that cannot follow what was read.
    UnexpectedCharacter,
}

/// A reference that is not in the grammar.
#[derive(Debug, Clone, Copy, PartialEq, Eq, Structural)]
pub struct SyntaxError {
    pub kind: SyntaxErrorKind,
    /// Index of the character at which reading stopped; the length of the
    /// input if it ended too early.
    pub position: usize,
}

/// What a reference points at within its book.
#[derive(Debug, Clone, Copy, PartialEq, Eq, Structural)]
pub enum Scope {
    /// The book alone: `"John"`.
    WholeBook,
    /// A chapter: `"John 3"`.
    Chapter { chapter: u32 },
    /// One verse: `"John 3:16"`.
    Verse { chapter: u32, verse: u32 },
    /// Verses of one chapter: `"John 3:16-17"`.
    Verses { chapter: u32, first: u32, last: u32 },
    /// From a verse to a verse of another chapter: `"John 3:16-4:2"`.
    Span { chapter: u32, verse: u32, end_chapter: u32, end_verse: u32 },
}

/// A reference as written: the book name as it stood and the numbers, none
/// of them checked against a canon.
#[derive(Debug, Clone, PartialEq, Eq)]
pub struct RawReference {
    pub book: String,
    pub scope: Scope,
}

/// The mathematical content of a raw reference.
pub struct RawView {
    pub book: Seq<char>,
    pub scope: Scope,
}

impl View for RawReference {
    type V = RawView;

    open spec fn view(&self) -> RawView {
        RawView { book: self.book@, scope: self.scope }
    }
}

/// Characters that may stand in a book name.
pub open spec fn is_name_char(c: char) -> bool {
    !is_digit(c) && !is_separator(c)
}

/// Index of the first character at or after `i` that cannot stand in a
/// book name; the length of `s` if there is none.
pub open spec fn skip_name(s: Seq<char>, i: int) -> int
    decreases s.len() - i,
{
    if 0 <= i < s.len() && is_name_char(s[i]) {
        skip_name(s, i + 1)
    } else {
        i
    }
}

/// Index of the first character at or after `i` that is no blank.
pub open spec fn skip_spaces(s: Seq<char>, i: int) -> int
    decreases s.len() - i,
{
    if 0 <= i < s.len() && is_space(s[i]) {
        skip_spaces(s, i + 1)
    } else {
        i
    }
}

/// Index of the first character at or after `i` that is no digit.
pub open spec fn skip_digits(s: Seq<char>, i: int) -> int
    decreases s.len() - i,
{
    if 0 <= i < s.len() && is_digit(s[i]) {
        skip_digits(s, i + 1)
    } else {
        i
    }
}

/// `s` without the blanks at its end.
pub open spec fn trim_end(s: Seq<char>) -> Seq<char>
    decreases s.len(),
{
    if s.len() > 0 && is_space(s.last()) {
        trim_end(s.drop_last())
    } else {
        s
    }
}

pub open spec fn syntax_error(kind: SyntaxErrorKind, position: int) -> SyntaxError {
    SyntaxError { kind, position: position as usize }
}

/// The number written at `i`: its value, and the index of what follows it
/// and the blanks after it.
pub open spec fn numeral(s: Seq<char>, i: int) -> Result<(u32, int), SyntaxError> {
    let j = skip_digits(s, i);
    if j == i {
        Err(syntax_error(SyntaxErrorKind::MissingNumber, i))
    } else if decimal_value(s.subrange(i, j)) > u32::MAX {
        Err(syntax_error(SyntaxErrorKind::NumeralTooLarge, i))
    } else {
        Ok((decimal_value(s.subrange(i, j)) as u32, skip_spaces(s, j)))
    }
}

/// What follows the first number of a range end, read at `i`.
pub open spec fn range_tail(s: Seq<char>, i: int, chapter: u32, verse: u32, n: u32) -> Result<
    Scope,
    SyntaxError,
> {
    if i == s.len() {
        Ok(Scope::Verses { chapter, first: verse, last: n })
    } else if s[i] != ':' {
        Err(syntax_error(SyntaxErrorKind::UnexpectedCharacter, i))
    } else {
        match numeral(s, skip_spaces(s, i + 1)) {
            Err(e) => Err(e),
            Ok((m, j)) => if j == s.len() {
                Ok(Scope::Span { chapter, verse, end_chapter: n, end_verse: m })
            } else {
                Err(syntax_error(SyntaxErrorKind::UnexpectedCharacter, j))
            },
        }
    }
}

/// What follows the verse number, read at `i`.
pub open spec fn verse_tail(s: Seq<char>, i: int, chapter: u32, verse: u32) -> Result<
    Scope,
    SyntaxError,
> {
    if i == s.len() {
        Ok(Scope::Verse { chapter, verse })
    } else if !is_dash(s[i]) {
        Err(syntax_error(SyntaxErrorKind::UnexpectedCharacter, i))
    } else {
        match numeral(s, skip_spaces(s, i + 1)) {
            Err(e) => Err(e),
            Ok((n, j)) => range_tail(s, j, chapter, verse, n),
        }
    }
}

/// What follows the chapter number, read at `i`.
pub open spec fn chapter_tail(s: Seq<char>, i: int, chapter: u32) -> Result<Scope, SyntaxError> {
    if i == s.len() {
        Ok(Scope::Chapter { chapter })
    } else if s[i] != ':' {
        Err(syntax_error(SyntaxErrorKind::UnexpectedCharacter, i))
    } else {
        match numeral(s, skip_spaces(s, i + 1)) {
            Err(e) => Err(e),
            Ok((verse, j)) => verse_tail(s, j, chapter, verse),
        }
    }
}

/// What follows the book name, read at `i`.
pub open spec fn scope_at(s: Seq<char>, i: int) -> Result<Scope, SyntaxError> {
    if i == s.len() {
        Ok(Scope::WholeBook)
    } else {
        match numeral(s, i) {
            Err(e) => Err(e),
            Ok((chapter, j)) => chapter_tail(s, j, chapter),
        }
    }
}

/// The book name of a reference: the longest run of name characters at its
/// start, without the blanks at its end.
pub open spec fn book_token(s: Seq<char>) -> Seq<char> {
    trim_end(s.take(skip_name(s, 0)))
}

/// The grammar: what a text means as a reference, or where and why it is
/// none.
pub open spec fn parse_spec(s: Seq<char>) -> Result<RawView, SyntaxError> {
    if book_token(s).len() == 0 {
        Err(syntax_error(SyntaxErrorKind::MissingBook, 0))
    } else {
        match scope_at(s, skip_name(s, 0)) {
            Err(e) => Err(e),
            Ok(scope) => Ok(RawView { book: book_token(s), scope }),
        }
    }
}

/// The content of what `parse` returns.
pub open spec fn parsed_view(r: Result<RawReference, SyntaxError>) -> Result<RawView, SyntaxError> {
    match r {
        Ok(raw) => Ok(raw@),
        Err(e) => Err(e),
    }
}

fn scan_name(s: &Vec<char>, i: usize) -> (j: usize)
    requires
        i <= s.len(),
    ensures
        j == skip_name(s@, i as int),
        i <= j <= s.len(),
{
    let mut j = i;
    while j < s.len() && !is_digit_char(s[j]) && !is_separator_char(s[j])
        invariant
            i <= j <= s.len(),
            skip_name(s@, i as int) == skip_name(s@, j as int),
        decreases s.len() - j,
    {
        j += 1;
    }
    j
}

fn scan_spaces(s: &Vec<char>, i: usize) -> (j: usize)
    requires
        i <= s.len(),
    ensures
        j == skip_spaces(s@, i as int),
        i <= j <= s.len(),
{
    let mut j = i;
    while j < s.len() && is_space_char(s[j])
        invariant
            i <= j <= s.len(),
            skip_spaces(s@, i as int) == skip_spaces(s@, j as int),
        decreases s.len() - j,
    {
        j += 1;
    }
    j
}

/// Index just after the last character of `s[..end]` that is no blank.
fn scan_trim_end(s: &Vec<char>, end: usize) -> (j: usize)
    requires
        end <= s.len(),
    ensures
        j <= end,
        s@.take(j as int) == trim_end(s@.take(end as int)),
{
    let mut j = end;
    while j > 0 && is_space_char(s[j - 1])
        invariant
            j <= end <= s.len(),
            trim_end(s@.take(j as int)) == trim_end(s@.take(end as int)),
        decreases j,
    {
        assert(s@.take(j as int).drop_last() =~= s@.take(j - 1));
        j -= 1;
    }
    j
}

/// Reads the number at `i` and the blanks after it.
fn scan_numeral(s: &Vec<char>, i: usize) -> (r: Result<(u32, usize), SyntaxError>)
    requires
        i <= s.len(),
    ensures
        match r {
            Ok((n, j)) => numeral(s@, i as int) == Ok::<(u32, int), SyntaxError>((n, j as int)) && i < j
                <= s.len(),
            Err(e) => numeral(s@, i as int) == Err::<(u32, int), SyntaxError>(e),
        },
{
    let mut j = i;
    let mut value: u64 = 0;
    let mut too_large = false;
    while j < s.len() && is_digit_char(s[j])
        invariant
            i <= j <= s.len(),
            skip_digits(s@, i as int) == skip_digits(s@, j as int),
            value <= u32::MAX,
            !too_large ==> value == decimal_value(s@.subrange(i as int, j as int)),
            too_large ==> decimal_value(s@.subrange(i as int, j as int)) > u32::MAX,
        decreases s.len() - j,
    {
        let c = s[j];
        let d: u64 = (c as u8 - 48) as u64;
        proof {
            lemma_decimal_value_push(s@.subrange(i as int, j as int), c);
            assert(s@.subrange(i as int, j as int).push(c) =~= s@.subrange(i as int, j + 1));
        }
        if !too_large {
            let next = value * 10 + d;
            if next > u32::MAX as u64 {
                too_large = true;
            } else {
                value = next;
            }
        }
        j += 1;
    }
    if j == i {
        Err(SyntaxError { kind: SyntaxErrorKind::MissingNumber, position: i })
    } else if too_large {
        Err(SyntaxError { kind: SyntaxErrorKind::NumeralTooLarge, position: i })
    } else {
        let k = scan_spaces(s, j);
        Ok((value as u32, k))
    }
}

fn unexpected(position: usize) -> (r: SyntaxError)
    ensures
        r == syntax_error(SyntaxErrorKind::UnexpectedCharacter, position as int),
{
    SyntaxError { kind: SyntaxErrorKind::UnexpectedCharacter, position }
}

/// Reads what follows the book name.
fn scan_scope(s: &Vec<char>, i: usize) -> (r: Result<Scope, SyntaxError>)
    requires
        i <= s.len(),
    ensures
        r == scope_at(s@, i as int),
{
    let n = s.len();
    if i == n {
        return Ok(Scope::WholeBook);
    }
    let (chapter, i1) = match scan_numeral(s, i) {
        Err(e) => { return Err(e); },
        Ok(found) => found,
    };
    if i1 == n {
        return Ok(Scope::Chapter { chapter });
    }
    if s[i1] != ':' {
        return Err(unexpected(i1));
    }
    let (verse, i2) = match scan_numeral(s, scan_spaces(s, i1 + 1)) {
        Err(e) => { return Err(e); },
        Ok(found) => found,
    };
    if i2 == n {
        return Ok(Scope::Verse { chapter, verse });
    }
    if !is_dash_char(s[i2]) {
        return Err(unexpected(i2));
    }
    let (last, i3) = match scan_numeral(s, scan_spaces(s, i2 + 1)) {
        Err(e) => { return Err(e); },
        Ok(found) => found,
    };
    if i3 == n {
        return Ok(Scope::Verses { chapter, first: verse, last });
    }
    if s[i3] != ':' {
        return Err(unexpected(i3));
    }
    let (end_verse, i4) = match scan_numeral(s, scan_spaces(s, i3 + 1)) {
        Err(e) => { return Err(e); },
        Ok(found) => found,
    };
    if i4 == n {
        Ok(Scope::Span { chapter, verse, end_chapter: last, end_verse })
    } else {
        Err(unexpected(i4))
    }
}

/// Reads a reference. The result is what the grammar says of the text:
/// the book name and the numbers, or the first place where the text leaves
/// the grammar.
pub fn parse(input: &str) -> (r: Result<RawReference, SyntaxError>)
    ensures
        parsed_view(r) == parse_spec(input@),
{
    let s = chars_of(input);
    let name_end = scan_name(&s, 0);
    let book_end = scan_trim_end(&s, name_end);
    if book_end == 0 {
        return Err(SyntaxError { kind: SyntaxErrorKind::MissingBook, position: 0 });
    }
    match scan_scope(&s, name_end) {
        Err(e) => Err(e),
        Ok(scope) => {
            let book = string_of_range(&s, 0, book_end);
            assert(s@.subrange(0, book_end as int) =~= s@.take(book_end as int));
            Ok(RawReference { book, scope })
        },
    }
}

} // verus!
