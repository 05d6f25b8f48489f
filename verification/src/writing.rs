//! Writing references: the text of a scope within a book, and the proof
//! that what is written here is read back as it was meant.
use vstd::prelude::*;
use crate::canon::{Book, CanonRegistry, lemma_lookup_unique, lookup, normalized, table_valid};
use crate::locator::{Locator, Place, Span, in_canon};
use crate::parser::{
    RawView, Scope, SyntaxError, book_token, chapter_tail, is_name_char, numeral, parse_spec,
    range_tail, skip_digits, skip_name, skip_spaces, trim_end, verse_tail,
};
use crate::resolver::{
    ReferenceError, ResolveError, chapter_fault, place, place_fault, resolve_scope, resolve_text,
};
use crate::text::{
    chars_of, decimal, is_digit, is_separator, is_space, lemma_decimal_round_trip, push_decimal,
    string_of,
};

verus! {

/// The reference text of `scope` within a book called `name`: the name, a
/// space, and the numbers in decimal with `:` and `-` between them.
pub open spec fn render(name: Seq<char>, scope: Scope) -> Seq<char> {
    match scope {
        Scope::WholeBook => name,
        Scope::Chapter { chapter } => name.push(' ') + decimal(chapter as nat),
        Scope::Verse { chapter, verse } => name.push(' ') + decimal(chapter as nat) + seq![':']
            + decimal(verse as nat),
        Scope::Verses { chapter, first, last } => name.push(' ') + decimal(chapter as nat)
            + seq![':'] + decimal(first as nat) + seq!['-'] + decimal(last as nat),
        Scope::Span { chapter, verse, end_chapter, end_verse } => name.push(' ') + decimal(
            chapter as nat,
        ) + seq![':'] + decimal(verse as nat) + seq!['-'] + decimal(end_chapter as nat)
            + seq![':'] + decimal(end_verse as nat),
    }
}

/// Names that can stand in a reference: no digit, no separator, and not
/// blank throughout.
pub open spec fn writable(name: Seq<char>) -> bool {
    &&& forall|i: int| 0 <= i < name.len() ==> is_name_char(#[trigger] name[i])
    &&& trim_end(name).len() > 0
}

/// The reference text of one verse, under the display name of its book.
pub open spec fn locator_text(books: Seq<Book>, p: Place) -> Seq<char> {
    render(books[p.book].name@, Scope::Verse { chapter: p.chapter as u32, verse: p.verse as u32 })
}

/// What resolution gives for a scope within a book, as the result of
/// resolving a text.
pub open spec fn as_text_result(r: Result<Span, ResolveError>) -> Result<Span, ReferenceError> {
    match r {
        Ok(span) => Ok(span),
        Err(e) => Err(ReferenceError::Resolve(e)),
    }
}

/// Writes the reference text of `scope` within a book called `name`.
pub fn write_reference(name: &str, scope: Scope) -> (r: String)
    ensures
        r@ == render(name@, scope),
{
    let mut out = chars_of(name);
    match scope {
        Scope::WholeBook => {},
        Scope::Chapter { chapter } => {
            out.push(' ');
            push_decimal(&mut out, chapter);
        },
        Scope::Verse { chapter, verse } => {
            out.push(' ');
            push_decimal(&mut out, chapter);
            out.push(':');
            push_decimal(&mut out, verse);
        },
        Scope::Verses { chapter, first, last } => {
            out.push(' ');
            push_decimal(&mut out, chapter);
            out.push(':');
            push_decimal(&mut out, first);
            out.push('-');
            push_decimal(&mut out, last);
        },
        Scope::Span { chapter, verse, end_chapter, end_verse } => {
            out.push(' ');
            push_decimal(&mut out, chapter);
            out.push(':');
            push_decimal(&mut out, verse);
            out.push('-');
            push_decimal(&mut out, end_chapter);
            out.push(':');
            push_decimal(&mut out, end_verse);
        },
    }
    assert(out@ =~= render(name@, scope));
    string_of(&out)
}

impl CanonRegistry {
    /// The reference text of a verse: the display name of its book, the
    /// chapter and the verse, as in `"John 3:16"`. A locator that this
    /// canon does not have is reported as `locate` would report it.
    pub fn format(&self, at: &Locator) -> (r: Result<String, ResolveError>)
        requires
            self.wf(),
        ensures
            match r {
                Ok(text) => in_canon(self@, at@) && text@ == locator_text(self@, at@),
                Err(e) => place_fault(self@, at@) == Some(e),
            },
    {
        match self.check(at) {
            Err(e) => { return Err(e); },
            Ok(_) => {},
        }
        let book = &self.books()[at.book()];
        Ok(
            write_reference(
                book.name.as_str(),
                Scope::Verse { chapter: at.chapter(), verse: at.verse() },
            ),
        )
    }
}

/// A run of name characters from `i` that ends at `j` is what `skip_name`
/// skips.
proof fn lemma_name_run(s: Seq<char>, i: int, j: int)
    requires
        0 <= i <= j <= s.len(),
        forall|k: int| i <= k < j ==> is_name_char(#[trigger] s[k]),
        j == s.len() || !is_name_char(s[j]),
    ensures
        skip_name(s, i) == j,
    decreases j - i,
{
    if i < j {
        lemma_name_run(s, i + 1, j);
    }
}

/// A run of digits from `i` that ends at `j` is what `skip_digits` skips.
proof fn lemma_digit_run(s: Seq<char>, i: int, j: int)
    requires
        0 <= i <= j <= s.len(),
        forall|k: int| i <= k < j ==> is_digit(#[trigger] s[k]),
        j == s.len() || !is_digit(s[j]),
    ensures
        skip_digits(s, i) == j,
    decreases j - i,
{
    if i < j {
        lemma_digit_run(s, i + 1, j);
    }
}

/// Where the decimal numeral of `n` stands at `i` and is followed by a
/// separator or by nothing, the grammar reads `n` there, and no blank
/// stands before it.
proof fn lemma_numeral_at(s: Seq<char>, i: int, n: u32, j: int)
    requires
        0 <= i,
        j == i + decimal(n as nat).len(),
        j <= s.len(),
        s.subrange(i, j) == decimal(n as nat),
        j == s.len() || is_separator(s[j]),
    ensures
        i < j,
        numeral(s, i) == Ok::<(u32, int), SyntaxError>((n, j)),
        skip_spaces(s, i) == i,
{
    lemma_decimal_round_trip(n as nat);
    let d = decimal(n as nat);
    assert forall|k: int| i <= k < j implies is_digit(#[trigger] s[k]) by {
        assert(s[k] == s.subrange(i, j)[k - i]);
        assert(is_digit(d[k - i]));
    }
    lemma_digit_run(s, i, j);
    assert(is_digit(s[i]));
}

/// Blanks at the end of a name do not change its normalized form.
pub proof fn lemma_normalized_trim_end(s: Seq<char>)
    ensures
        normalized(trim_end(s)) == normalized(s),
    decreases s.len(),
{
    if s.len() > 0 && is_space(s.last()) {
        lemma_normalized_trim_end(s.drop_last());
    }
}

/// Whether the decimal numeral of `n` stands in `s` at `i`, followed by a
/// separator or by nothing.
spec fn stands_at(s: Seq<char>, i: int, n: u32) -> bool {
    let j = i + decimal(n as nat).len();
    &&& 0 <= i
    &&& j <= s.len()
    &&& s.subrange(i, j) == decimal(n as nat)
    &&& (j == s.len() || is_separator(s[j]))
}

/// Index just after the numeral of `n` that stands at `i`.
spec fn after(i: int, n: u32) -> int {
    i + decimal(n as nat).len()
}

/// What the grammar reads where a numeral stands.
proof fn lemma_reads(s: Seq<char>, i: int, n: u32)
    requires
        stands_at(s, i, n),
    ensures
        i < after(i, n) <= s.len(),
        is_digit(s[i]),
        numeral(s, i) == Ok::<(u32, int), SyntaxError>((n, after(i, n))),
        skip_spaces(s, i) == i,
{
    lemma_numeral_at(s, i, n, after(i, n));
    lemma_decimal_round_trip(n as nat);
    assert(s[i] == s.subrange(i, after(i, n))[0]);
}

/// Where the numerals stand in a written reference.
proof fn lemma_layout(name: Seq<char>, scope: Scope)
    ensures
        render(name, scope).len() >= name.len(),
        render(name, scope).take(name.len() as int) == name,
        scope !is WholeBook ==> render(name, scope).len() > name.len() + 1 && render(
            name,
            scope,
        )[name.len() as int] == ' ',
        match scope {
            Scope::WholeBook => render(name, scope) == name,
            Scope::Chapter { chapter } => {
                let s = render(name, scope);
                let a: int = name.len() as int + 1;
                stands_at(s, a, chapter) && after(a, chapter) == s.len()
            },
            Scope::Verse { chapter, verse } => {
                let s = render(name, scope);
                let a: int = name.len() as int + 1;
                let b = after(a, chapter);
                &&& stands_at(s, a, chapter)
                &&& b < s.len() && s[b] == ':'
                &&& stands_at(s, b + 1, verse)
                &&& after(b + 1, verse) == s.len()
            },
            Scope::Verses { chapter, first, last } => {
                let s = render(name, scope);
                let a: int = name.len() as int + 1;
                let b = after(a, chapter);
                let d = after(b + 1, first);
                &&& stands_at(s, a, chapter)
                &&& b < s.len() && s[b] == ':'
                &&& stands_at(s, b + 1, first)
                &&& d < s.len() && s[d] == '-'
                &&& stands_at(s, d + 1, last)
                &&& after(d + 1, last) == s.len()
            },
            Scope::Span { chapter, verse, end_chapter, end_verse } => {
                let s = render(name, scope);
                let a: int = name.len() as int + 1;
                let b = after(a, chapter);
                let d = after(b + 1, verse);
                let f = after(d + 1, end_chapter);
                &&& stands_at(s, a, chapter)
                &&& b < s.len() && s[b] == ':'
                &&& stands_at(s, b + 1, verse)
                &&& d < s.len() && s[d] == '-'
                &&& stands_at(s, d + 1, end_chapter)
                &&& f < s.len() && s[f] == ':'
                &&& stands_at(s, f + 1, end_verse)
                &&& after(f + 1, end_verse) == s.len()
            },
        },
{
    let s = render(name, scope);
    let a: int = name.len() as int + 1;
    match scope {
        Scope::WholeBook => {
            assert(s.take(name.len() as int) =~= name);
        },
        Scope::Chapter { chapter } => {
            lemma_decimal_round_trip(chapter as nat);
            assert(s.take(name.len() as int) =~= name);
            assert(s.subrange(a, after(a, chapter)) =~= decimal(chapter as nat));
        },
        Scope::Verse { chapter, verse } => {
            lemma_decimal_round_trip(chapter as nat);
            lemma_decimal_round_trip(verse as nat);
            let b = after(a, chapter);
            assert(s.take(name.len() as int) =~= name);
            assert(s.subrange(a, b) =~= decimal(chapter as nat));
            assert(s.subrange(b + 1, after(b + 1, verse)) =~= decimal(verse as nat));
        },
        Scope::Verses { chapter, first, last } => {
            lemma_decimal_round_trip(chapter as nat);
            lemma_decimal_round_trip(first as nat);
            lemma_decimal_round_trip(last as nat);
            let b = after(a, chapter);
            let d = after(b + 1, first);
            assert(s.take(name.len() as int) =~= name);
            assert(s.subrange(a, b) =~= decimal(chapter as nat));
            assert(s.subrange(b + 1, d) =~= decimal(first as nat));
            assert(s.subrange(d + 1, after(d + 1, last)) =~= decimal(last as nat));
        },
        Scope::Span { chapter, verse, end_chapter, end_verse } => {
            lemma_decimal_round_trip(chapter as nat);
            lemma_decimal_round_trip(verse as nat);
            lemma_decimal_round_trip(end_chapter as nat);
            lemma_decimal_round_trip(end_verse as nat);
            let b = after(a, chapter);
            let d = after(b + 1, verse);
            let f = after(d + 1, end_chapter);
            assert(s.take(name.len() as int) =~= name);
            assert(s.subrange(a, b) =~= decimal(chapter as nat));
            assert(s.subrange(b + 1, d) =~= decimal(verse as nat));
            assert(s.subrange(d + 1, f) =~= decimal(end_chapter as nat));
            assert(s.subrange(f + 1, after(f + 1, end_verse)) =~= decimal(end_verse as nat));
        },
    }
}

/// The head of a written reference: the name, and where it ends.
proof fn lemma_head(name: Seq<char>, s: Seq<char>)
    requires
        writable(name),
        s.len() >= name.len(),
        s.take(name.len() as int) == name,
        s.len() > name.len() ==> s.len() > name.len() + 1 && s[name.len() as int] == ' '
            && is_digit(s[name.len() as int + 1]),
    ensures
        skip_name(s, 0) == (if s.len() == name.len() {
            name.len() as int
        } else {
            name.len() as int + 1
        }),
        book_token(s) == trim_end(name),
{
    let n = name.len() as int;
    assert forall|k: int| 0 <= k < n implies is_name_char(#[trigger] s[k]) by {
        assert(s[k] == s.take(n)[k]);
    }
    if s.len() == n {
        lemma_name_run(s, 0, n);
        assert(s.take(n) =~= s);
    } else {
        lemma_name_run(s, 0, n + 1);
        assert(s.take(n + 1).drop_last() =~= s.take(n));
    }
}

/// A reference written by `render` under a writable name is read back as
/// the same scope, under the name without the blanks at its end.
pub proof fn lemma_parse_render(name: Seq<char>, scope: Scope)
    requires
        writable(name),
    ensures
        parse_spec(render(name, scope)) == Ok::<RawView, SyntaxError>(
            RawView { book: trim_end(name), scope },
        ),
{
    let s = render(name, scope);
    let a: int = name.len() as int + 1;
    lemma_layout(name, scope);
    match scope {
        Scope::WholeBook => {
            lemma_head(name, s);
        },
        Scope::Chapter { chapter } => {
            lemma_reads(s, a, chapter);
            lemma_head(name, s);
        },
        Scope::Verse { chapter, verse } => {
            let b = after(a, chapter);
            lemma_reads(s, a, chapter);
            lemma_reads(s, b + 1, verse);
            lemma_head(name, s);
            assert(chapter_tail(s, b, chapter) == Ok::<Scope, SyntaxError>(scope));
        },
        Scope::Verses { chapter, first, last } => {
            let b = after(a, chapter);
            let d = after(b + 1, first);
            lemma_reads(s, a, chapter);
            lemma_reads(s, b + 1, first);
            lemma_reads(s, d + 1, last);
            lemma_head(name, s);
            assert(verse_tail(s, d, chapter, first) == Ok::<Scope, SyntaxError>(scope));
            assert(chapter_tail(s, b, chapter) == Ok::<Scope, SyntaxError>(scope));
        },
        Scope::Span { chapter, verse, end_chapter, end_verse } => {
            let b = after(a, chapter);
            let d = after(b + 1, verse);
            let f = after(d + 1, end_chapter);
            lemma_reads(s, a, chapter);
            lemma_reads(s, b + 1, verse);
            lemma_reads(s, d + 1, end_chapter);
            lemma_reads(s, f + 1, end_verse);
            lemma_head(name, s);
            assert(range_tail(s, f, chapter, verse, end_chapter) == Ok::<Scope, SyntaxError>(
                scope,
            ));
            assert(verse_tail(s, d, chapter, verse) == Ok::<Scope, SyntaxError>(scope));
            assert(chapter_tail(s, b, chapter) == Ok::<Scope, SyntaxError>(scope));
        },
    }
}

/// A name of a book, as it is read back from a reference, leads to that
/// book.
pub proof fn lemma_written_name_finds_book(books: Seq<Book>, i: int, k: int)
    requires
        table_valid(books),
        0 <= i < books.len(),
        0 <= k < books[i].key_count(),
    ensures
        lookup(books, trim_end(books[i].key(k))) == Some(i),
{
    let name = books[i].key(k);
    lemma_normalized_trim_end(name);
    assert(books[i].norm_keys()[k] == normalized(trim_end(name)));
    lemma_lookup_unique(books, trim_end(name), i);
}

/// A reference written under any writable name of a book resolves to what
/// its scope denotes within that book.
pub proof fn lemma_written_reference_resolves(books: Seq<Book>, i: int, k: int, scope: Scope)
    requires
        table_valid(books),
        0 <= i < books.len(),
        0 <= k < books[i].key_count(),
        writable(books[i].key(k)),
    ensures
        resolve_text(books, render(books[i].key(k), scope)) == as_text_result(
            resolve_scope(books[i], scope),
        ),
{
    lemma_parse_render(books[i].key(k), scope);
    lemma_written_name_finds_book(books, i, k);
}

/// A book's name alone denotes the whole book: from the first verse of
/// its first chapter to the last verse of its last chapter.
pub proof fn lemma_name_alone_is_whole_book(books: Seq<Book>, i: int, k: int)
    requires
        table_valid(books),
        0 <= i < books.len(),
        0 <= k < books[i].key_count(),
        writable(books[i].key(k)),
    ensures
        resolve_text(books, books[i].key(k)) == Ok::<Span, ReferenceError>(
            Span {
                start: place(i, 1, 1),
                end: place(i, books[i].chapters(), books[i].verses_in(books[i].chapters())),
            },
        ),
{
    lemma_written_reference_resolves(books, i, k, Scope::WholeBook);
    assert(books[i].well_formed(i));
}

/// A book's name and a chapter number that the book has denote the whole
/// chapter: from its first verse to its last.
pub proof fn lemma_name_and_chapter_is_whole_chapter(books: Seq<Book>, i: int, k: int, chapter: u32)
    requires
        table_valid(books),
        0 <= i < books.len(),
        0 <= k < books[i].key_count(),
        writable(books[i].key(k)),
        books[i].has_chapter(chapter as int),
    ensures
        resolve_text(books, render(books[i].key(k), Scope::Chapter { chapter })) == Ok::<
            Span,
            ReferenceError,
        >(
            Span {
                start: place(i, chapter as int, 1),
                end: place(i, chapter as int, books[i].verses_in(chapter as int)),
            },
        ),
{
    lemma_written_reference_resolves(books, i, k, Scope::Chapter { chapter });
    assert(books[i].well_formed(i));
}

/// Verses of a chapter that the book has, written with the larger number
/// first, are an inverted range.
pub proof fn lemma_descending_verses_are_inverted(
    books: Seq<Book>,
    i: int,
    k: int,
    chapter: u32,
    first: u32,
    last: u32,
)
    requires
        table_valid(books),
        0 <= i < books.len(),
        0 <= k < books[i].key_count(),
        writable(books[i].key(k)),
        books[i].has_chapter(chapter as int),
        last < first,
    ensures
        resolve_text(books, render(books[i].key(k), Scope::Verses { chapter, first, last })) == Err::<
            Span,
            ReferenceError,
        >(ReferenceError::Resolve(ResolveError::InvertedRange)),
{
    lemma_written_reference_resolves(books, i, k, Scope::Verses { chapter, first, last });
}

/// The chapter that a scope starts in, if it names one.
pub open spec fn first_chapter(scope: Scope) -> Option<u32> {
    match scope {
        Scope::WholeBook => None,
        Scope::Chapter { chapter } => Some(chapter),
        Scope::Verse { chapter, .. } => Some(chapter),
        Scope::Verses { chapter, .. } => Some(chapter),
        Scope::Span { chapter, .. } => Some(chapter),
    }
}

/// A chapter number beyond the chapters of the book is out of canon,
/// whatever follows it, and the book is not reported as unknown.
pub proof fn lemma_chapter_beyond_book_is_out_of_canon(
    books: Seq<Book>,
    i: int,
    k: int,
    scope: Scope,
)
    requires
        table_valid(books),
        0 <= i < books.len(),
        0 <= k < books[i].key_count(),
        writable(books[i].key(k)),
        first_chapter(scope) is Some,
        first_chapter(scope)->0 > books[i].chapters(),
    ensures
        resolve_text(books, render(books[i].key(k), scope)) == Err::<Span, ReferenceError>(
            ReferenceError::Resolve(chapter_fault(books[i], first_chapter(scope)->0 as int)),
        ),
{
    lemma_written_reference_resolves(books, i, k, scope);
}

/// The text of a verse of the canon, read and resolved again, is that
/// verse and nothing more.
pub proof fn lemma_round_trip(books: Seq<Book>, p: Place)
    requires
        table_valid(books),
        in_canon(books, p),
        writable(books[p.book].name@),
    ensures
        resolve_text(books, locator_text(books, p)) == Ok::<Span, ReferenceError>(
            Span { start: p, end: p },
        ),
{
    let book = books[p.book];
    assert(book.well_formed(p.book));
    assert(book.key(0) == book.name@);
    let scope = Scope::Verse { chapter: p.chapter as u32, verse: p.verse as u32 };
    lemma_written_reference_resolves(books, p.book, 0, scope);
}

} // verus!
