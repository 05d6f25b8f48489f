//! The registry of books: which books exist, in what order, how many
//! chapters and verses each has, and by which names each may be called.
use vstd::prelude::*;
use crate::text::{is_space, is_space_char, listed, lower, texts, to_lower};

verus! {

/// One step of the left-to-right pass that normalizes a name. The state is
/// the text written so far and whether a blank is owed before the next
/// character.
pub open spec fn fold_name_step(state: (Seq<char>, bool), c: char) -> (Seq<char>, bool) {
    if c == '.' {
        state
    } else if is_space(c) {
        (state.0, state.0.len() > 0)
    } else if state.1 {
        (state.0.push(' ').push(lower(c)), false)
    } else {
        (state.0.push(lower(c)), false)
    }
}

/// The pass over a whole name.
pub open spec fn fold_name(s: Seq<char>) -> (Seq<char>, bool)
    decreases s.len(),
{
    if s.len() == 0 {
        (Seq::empty(), false)
    } else {
        fold_name_step(fold_name(s.drop_last()), s.last())
    }
}

/// The form under which names are compared: periods removed, letters in
/// lower case, each run of blanks turned into one space, no blank at either
/// end.
pub open spec fn normalized(s: Seq<char>) -> Seq<char> {
    fold_name(s).0
}

/// The pass continued from `state` over the text `s`.
pub open spec fn fold_name_from(state: (Seq<char>, bool), s: Seq<char>) -> (Seq<char>, bool)
    decreases s.len(),
{
    if s.len() == 0 {
        state
    } else {
        fold_name_step(fold_name_from(state, s.drop_last()), s.last())
    }
}

/// The pass over a text in two parts is the pass over the first part,
/// continued over the second.
pub proof fn lemma_fold_name_parts(a: Seq<char>, b: Seq<char>)
    ensures
        fold_name(a + b) == fold_name_from(fold_name(a), b),
    decreases b.len(),
{
    if b.len() == 0 {
        assert(a + b =~= a);
    } else {
        lemma_fold_name_parts(a, b.drop_last());
        assert((a + b).drop_last() =~= a + b.drop_last());
    }
}

/// The same text in lower case.
pub open spec fn lowered(s: Seq<char>) -> Seq<char> {
    Seq::new(s.len(), |i: int| lower(s[i]))
}

/// Case does not matter: a name and the same name in lower case are
/// compared as equal.
pub proof fn lemma_case_ignored(s: Seq<char>)
    ensures
        fold_name(lowered(s)) == fold_name(s),
        normalized(lowered(s)) == normalized(s),
    decreases s.len(),
{
    if s.len() > 0 {
        lemma_case_ignored(s.drop_last());
        assert(lowered(s).drop_last() =~= lowered(s.drop_last()));
        assert(lowered(s).last() == lower(s.last()));
    }
}

/// Periods do not matter: a name with a period anywhere in it is compared
/// as equal to the name without that period.
pub proof fn lemma_period_ignored(a: Seq<char>, b: Seq<char>)
    ensures
        normalized(a.push('.') + b) == normalized(a + b),
{
    lemma_fold_name_parts(a.push('.'), b);
    lemma_fold_name_parts(a, b);
    assert(a.push('.').drop_last() =~= a);
}

/// The amount of blank space does not matter: two blanks in a row are
/// compared as one, whichever blanks they are.
pub proof fn lemma_blank_run_ignored(a: Seq<char>, x: char, y: char, z: char, b: Seq<char>)
    requires
        is_space(x),
        is_space(y),
        is_space(z),
    ensures
        normalized(a.push(x).push(y) + b) == normalized(a.push(z) + b),
{
    lemma_fold_name_parts(a.push(x).push(y), b);
    lemma_fold_name_parts(a.push(z), b);
    assert(a.push(x).push(y).drop_last() =~= a.push(x));
    assert(a.push(x).drop_last() =~= a);
    assert(a.push(z).drop_last() =~= a);
    let start = fold_name(a);
    assert(fold_name(a.push(x)) == fold_name_step(start, x));
    assert(fold_name(a.push(x).push(y)) == fold_name_step(fold_name_step(start, x), y));
    assert(fold_name(a.push(z)) == fold_name_step(start, z));
}

/// Blank space at the ends does not matter.
pub proof fn lemma_outer_blank_ignored(x: char, s: Seq<char>)
    requires
        is_space(x),
    ensures
        normalized(seq![x] + s) == normalized(s),
        normalized(s.push(x)) == normalized(s),
{
    let e = Seq::<char>::empty();
    lemma_fold_name_parts(seq![x], s);
    lemma_fold_name_parts(e, s);
    assert(e + s =~= s);
    assert(seq![x].drop_last() =~= e);
    assert(fold_name(seq![x]) == fold_name(e));
    assert(s.push(x).drop_last() =~= s);
}

/// Computes the normalized form of `name`.
pub fn normalize(name: &str) -> (r: Vec<char>)
    ensures
        r@ == normalized(name@),
{
    broadcast use vstd::string::group_string_axioms;

    let mut out: Vec<char> = Vec::new();
    let mut gap = false;
    for c in it: name.chars()
        invariant
            it.seq() == name@,
            (out@, gap) == fold_name(name@.take(it.index() as int)),
    {
        proof {
            let i = it.index() as int;
            assert(name@.take(i + 1).drop_last() =~= name@.take(i));
            assert(name@.take(i + 1).last() == c);
        }
        if c == '.' {
        } else if is_space_char(c) {
            gap = out.len() > 0;
        } else {
            if gap {
                out.push(' ');
            }
            out.push(to_lower(c));
            gap = false;
        }
    }
    assert(name@.take(name@.len() as int) =~= name@);
    out
}

/// A book of the canon.
#[derive(Debug, Clone, PartialEq, Eq)]
pub struct Book {
    /// Position in canonical order, counted from zero; it identifies the book.
    pub ordinal: usize,
    /// The name under which the book is shown.
    pub name: String,
    /// Further names and abbreviations under which the book is found.
    pub aliases: Vec<String>,
    /// Number of verses of each chapter, first chapter first.
    pub verse_counts: Vec<u32>,
}

impl Book {
    /// Number of names the book has: its display name and its aliases.
    pub open spec fn key_count(&self) -> int {
        (self.aliases@.len() + 1) as int
    }

    /// The display name (`k == 0`) or the alias `k - 1`.
    pub open spec fn key(&self, k: int) -> Seq<char> {
        if k == 0 {
            self.name@
        } else {
            self.aliases@[k - 1]@
        }
    }

    /// The normalized forms of all names of the book.
    pub open spec fn norm_keys(&self) -> Seq<Seq<char>> {
        Seq::new(self.key_count() as nat, |k: int| normalized(self.key(k)))
    }

    /// Whether `name` is, up to normalization, one of the book's names.
    pub open spec fn answers_to(&self, name: Seq<char>) -> bool {
        self.norm_keys().contains(normalized(name))
    }

    /// Number of chapters.
    pub open spec fn chapters(&self) -> int {
        self.verse_counts@.len() as int
    }

    /// Number of verses of chapter `chapter`, counted from one.
    pub open spec fn verses_in(&self, chapter: int) -> int {
        self.verse_counts@[chapter - 1] as int
    }

    /// Whether `chapter` is a chapter of the book.
    pub open spec fn has_chapter(&self, chapter: int) -> bool {
        1 <= chapter <= self.chapters()
    }

    /// Whether `chapter:verse` is a verse of the book.
    pub open spec fn has_verse(&self, chapter: int, verse: int) -> bool {
        self.has_chapter(chapter) && 1 <= verse <= self.verses_in(chapter)
    }

    /// What the registry asks of the book at position `position`: its
    /// ordinal is its position, it has at least one chapter (and no more
    /// than a chapter number can name), and no chapter is empty.
    pub open spec fn well_formed(&self, position: int) -> bool {
        &&& self.ordinal == position
        &&& 1 <= self.verse_counts@.len() <= u32::MAX
        &&& forall|c: int| 0 <= c < self.verse_counts@.len() ==> #[trigger] self.verse_counts@[c] >= 1
    }
}

/// Whether two books share a name, up to normalization.
pub open spec fn clash(a: Book, b: Book) -> bool {
    exists|k: int| 0 <= k < b.key_count() && a.norm_keys().contains(#[trigger] b.norm_keys()[k])
}

/// Whether the first `n` books are well formed.
pub open spec fn well_formed_upto(books: Seq<Book>, n: int) -> bool {
    forall|i: int| 0 <= i < n ==> (#[trigger] books[i]).well_formed(i)
}

/// Whether no two of the first `n` books share a name.
pub open spec fn distinct_upto(books: Seq<Book>, n: int) -> bool {
    forall|i: int, j: int| 0 <= i < j < n ==> !clash(#[trigger] books[i], #[trigger] books[j])
}

/// The invariant of a canon: ordinals are the positions, every book has a
/// chapter, every chapter a verse, and a name leads to one book only.
pub open spec fn table_valid(books: Seq<Book>) -> bool {
    well_formed_upto(books, books.len() as int) && distinct_upto(books, books.len() as int)
}

/// The book that answers to `name`, if any.
pub open spec fn lookup(books: Seq<Book>, name: Seq<char>) -> Option<int> {
    if exists|i: int| 0 <= i < books.len() && (#[trigger] books[i]).answers_to(name) {
        Some(choose|i: int| 0 <= i < books.len() && (#[trigger] books[i]).answers_to(name))
    } else {
        None
    }
}

/// In a valid table at most one book answers to a name, so the book that
/// does is the one `lookup` gives.
pub proof fn lemma_lookup_unique(books: Seq<Book>, name: Seq<char>, i: int)
    requires
        table_valid(books),
        0 <= i < books.len(),
        books[i].answers_to(name),
    ensures
        lookup(books, name) == Some(i),
{
    let j = choose|j: int| 0 <= j < books.len() && (#[trigger] books[j]).answers_to(name);
    if i != j {
        let wanted = normalized(name);
        let a = if i < j { books[i] } else { books[j] };
        let b = if i < j { books[j] } else { books[i] };
        let k = choose|k: int| 0 <= k < b.norm_keys().len() && b.norm_keys()[k] == wanted;
        assert(a.norm_keys().contains(b.norm_keys()[k]));
        assert(clash(a, b));
        assert(false);
    }
}

/// Every book is found under its display name and under each of its
/// aliases.
pub proof fn lemma_book_found_by_each_name(books: Seq<Book>, i: int, k: int)
    requires
        table_valid(books),
        0 <= i < books.len(),
        0 <= k < books[i].key_count(),
    ensures
        lookup(books, books[i].key(k)) == Some(i),
{
    let name = books[i].key(k);
    assert(books[i].norm_keys()[k] == normalized(name));
    lemma_lookup_unique(books, name, i);
}

/// Which bound of the canon a number fell outside of.
#[derive(Debug, Clone, Copy, PartialEq, Eq, Structural)]
pub enum CanonBound {
    Book,
    Chapter,
    Verse,
}

/// A book, chapter or verse number that the canon does not have.
#[derive(Debug, Clone, Copy, PartialEq, Eq, Structural)]
pub struct OutOfCanon {
    /// What was counted.
    pub bound: CanonBound,
    /// The number that was asked for.
    pub given: usize,
    /// The largest number the canon has (for a book: the number of books).
    pub limit: usize,
}

/// Why a table of books is no canon.
#[derive(Debug, Clone, Copy, PartialEq, Eq, Structural)]
pub enum CanonError {
    /// The book at position `book` carries another ordinal.
    Misplaced { book: usize },
    /// The book has no chapter, or more than a chapter number can name.
    ChapterCount { book: usize },
    /// Chapter `chapter` of the book has no verse.
    EmptyChapter { book: usize, chapter: u32 },
    /// The book shares a name with the book `earlier`.
    SharedName { book: usize, earlier: usize },
}

/// Whether `e` names the first defect of `books`: the first book that is
/// not well formed, with its first fault; or, if all are, the first book
/// that shares a name with one before it, and the first such one.
pub open spec fn describes(e: CanonError, books: Seq<Book>) -> bool {
    match e {
        CanonError::Misplaced { book } => {
            &&& book < books.len()
            &&& well_formed_upto(books, book as int)
            &&& books[book as int].ordinal != book
        },
        CanonError::ChapterCount { book } => {
            &&& book < books.len()
            &&& well_formed_upto(books, book as int)
            &&& books[book as int].ordinal == book
            &&& !(1 <= books[book as int].verse_counts@.len() <= u32::MAX)
        },
        CanonError::EmptyChapter { book, chapter } => {
            &&& book < books.len()
            &&& well_formed_upto(books, book as int)
            &&& books[book as int].ordinal == book
            &&& books[book as int].verse_counts@.len() <= u32::MAX
            &&& books[book as int].has_chapter(chapter as int)
            &&& books[book as int].verses_in(chapter as int) == 0
            &&& forall|c: int| 1 <= c < chapter ==> books[book as int].verses_in(c) >= 1
        },
        CanonError::SharedName { book, earlier } => {
            &&& well_formed_upto(books, books.len() as int)
            &&& earlier < book < books.len()
            &&& distinct_upto(books, book as int)
            &&& clash(books[earlier as int], books[book as int])
            &&& forall|i: int| 0 <= i < earlier ==> !clash(#[trigger] books[i], books[book as int])
        },
    }
}

/// A table with a defect is not valid.
pub proof fn lemma_defect_invalid(e: CanonError, books: Seq<Book>)
    requires
        describes(e, books),
    ensures
        !table_valid(books),
{
    match e {
        CanonError::Misplaced { book } => {
            assert(!books[book as int].well_formed(book as int));
        },
        CanonError::ChapterCount { book } => {
            assert(!books[book as int].well_formed(book as int));
        },
        CanonError::EmptyChapter { book, chapter } => {
            let b = books[book as int];
            assert(b.verse_counts@[chapter - 1] == 0);
            assert(!b.well_formed(book as int));
        },
        CanonError::SharedName { book, earlier } => {
            assert(clash(books[earlier as int], books[book as int]));
        },
    }
}

/// The canon: a valid table of books, with the normalized names kept ready
/// for lookups.
pub struct CanonRegistry {
    books: Vec<Book>,
    keys: Vec<Vec<Vec<char>>>,
}

impl View for CanonRegistry {
    type V = Seq<Book>;

    closed spec fn view(&self) -> Seq<Book> {
        self.books@
    }
}

/// First fault of one book, if it has one.
fn check_book(books: &Vec<Book>, i: usize) -> (r: Option<CanonError>)
    requires
        i < books.len(),
        well_formed_upto(books@, i as int),
    ensures
        match r {
            None => books@[i as int].well_formed(i as int),
            Some(e) => describes(e, books@),
        },
{
    let book = &books[i];
    if book.ordinal != i {
        return Some(CanonError::Misplaced { book: i });
    }
    let n = book.verse_counts.len();
    if n == 0 || n > u32::MAX as usize {
        return Some(CanonError::ChapterCount { book: i });
    }
    let mut c: usize = 0;
    while c < n
        invariant
            c <= n,
            n == book.verse_counts@.len(),
            n <= u32::MAX,
            i < books@.len(),
            *book == books@[i as int],
            book.ordinal == i,
            well_formed_upto(books@, i as int),
            forall|d: int| 0 <= d < c ==> #[trigger] book.verse_counts@[d] >= 1,
        decreases n - c,
    {
        if book.verse_counts[c] == 0 {
            let chapter: u32 = (c + 1) as u32;
            let e = CanonError::EmptyChapter { book: i, chapter };
            proof {
                let b = books@[i as int];
                assert(b == *book);
                assert(b.has_chapter(chapter as int));
                assert(b.verses_in(chapter as int) == 0);
                assert forall|d: int| 1 <= d < chapter implies b.verses_in(d) >= 1 by {
                    assert(b.verse_counts@[d - 1] >= 1);
                }
                assert(describes(e, books@));
            }
            return Some(e);
        }
        c += 1;
    }
    None
}

/// The normalized names of one book.
fn keys_of(book: &Book) -> (r: Vec<Vec<char>>)
    ensures
        texts(r@) == book.norm_keys(),
{
    let mut keys: Vec<Vec<char>> = Vec::new();
    keys.push(normalize(book.name.as_str()));
    let mut k: usize = 0;
    while k < book.aliases.len()
        invariant
            k <= book.aliases.len(),
            keys@.len() == k + 1,
            forall|j: int| 0 <= j <= k ==> (#[trigger] keys@[j])@ == normalized(book.key(j)),
        decreases book.aliases.len() - k,
    {
        keys.push(normalize(book.aliases[k].as_str()));
        k += 1;
    }
    assert(texts(keys@) =~= book.norm_keys());
    keys
}

/// Whether two lists of normalized names have a name in common.
fn share_a_key(a: &Vec<Vec<char>>, b: &Vec<Vec<char>>) -> (r: bool)
    ensures
        r == (exists|k: int| 0 <= k < b@.len() && texts(a@).contains(#[trigger] texts(b@)[k])),
{
    let mut k: usize = 0;
    while k < b.len()
        invariant
            k <= b.len(),
            forall|j: int| 0 <= j < k ==> !texts(a@).contains(#[trigger] texts(b@)[j]),
        decreases b.len() - k,
    {
        if listed(a, &b[k]) {
            assert(texts(a@).contains(texts(b@)[k as int]));
            return true;
        }
        k += 1;
    }
    false
}

impl CanonRegistry {
    /// Whether the stored names are the normalized names of the books.
    pub closed spec fn keys_ready(&self) -> bool {
        &&& self.keys@.len() == self.books@.len()
        &&& forall|b: int| 0 <= b < self.books@.len() ==> texts((#[trigger] self.keys@[b])@) == self.books@[b].norm_keys()
    }

    /// The invariant of the registry.
    pub open spec fn wf(&self) -> bool {
        table_valid(self@) && self.keys_ready()
    }

    /// Builds the canon from a table of books, or names the first defect
    /// of the table. It succeeds exactly on the valid tables.
    pub fn new(books: Vec<Book>) -> (r: Result<CanonRegistry, CanonError>)
        ensures
            match r {
                Ok(canon) => table_valid(books@) && canon.wf() && canon@ == books@,
                Err(e) => describes(e, books@) && !table_valid(books@),
            },
    {
        let n = books.len();
        let mut i: usize = 0;
        while i < n
            invariant
                i <= n,
                n == books@.len(),
                well_formed_upto(books@, i as int),
            decreases n - i,
        {
            match check_book(&books, i) {
                Some(e) => {
                    proof {
                        lemma_defect_invalid(e, books@);
                    }
                    return Err(e);
                },
                None => {},
            }
            i += 1;
        }
        let mut keys: Vec<Vec<Vec<char>>> = Vec::new();
        let mut j: usize = 0;
        while j < n
            invariant
                j <= n,
                n == books@.len(),
                keys@.len() == j,
                well_formed_upto(books@, n as int),
                distinct_upto(books@, j as int),
                forall|b: int| 0 <= b < j ==> texts((#[trigger] keys@[b])@) == books@[b].norm_keys(),
            decreases n - j,
        {
            let mine = keys_of(&books[j]);
            let mut e: usize = 0;
            while e < j
                invariant
                    e <= j < n,
                    n == books@.len(),
                    keys@.len() == j,
                    well_formed_upto(books@, n as int),
                    distinct_upto(books@, j as int),
                    texts(mine@) == books@[j as int].norm_keys(),
                    forall|b: int| 0 <= b < j ==> texts((#[trigger] keys@[b])@) == books@[b].norm_keys(),
                    forall|b: int| 0 <= b < e ==> !clash(#[trigger] books@[b], books@[j as int]),
                decreases j - e,
            {
                let shared = share_a_key(&keys[e], &mine);
                proof {
                    let a = books@[e as int];
                    let b = books@[j as int];
                    assert(texts(keys@[e as int]@) == a.norm_keys());
                    assert(texts(mine@).len() == mine@.len());
                    assert(b.norm_keys().len() == b.key_count());
                    if shared {
                        let k = choose|k: int|
                            0 <= k < mine@.len() && texts(keys@[e as int]@).contains(
                                #[trigger] texts(mine@)[k],
                            );
                        assert(a.norm_keys().contains(b.norm_keys()[k]));
                    } else if clash(a, b) {
                        let k = choose|k: int|
                            0 <= k < b.key_count() && a.norm_keys().contains(
                                #[trigger] b.norm_keys()[k],
                            );
                        assert(texts(keys@[e as int]@).contains(texts(mine@)[k]));
                    }
                    assert(shared == clash(a, b));
                }
                if shared {
                    let err = CanonError::SharedName { book: j, earlier: e };
                    proof {
                        assert(describes(err, books@));
                        lemma_defect_invalid(err, books@);
                    }
                    return Err(err);
                }
                e += 1;
            }
            keys.push(mine);
            j += 1;
        }
        Ok(CanonRegistry { books, keys })
    }

    /// The books in canonical order.
    pub fn books(&self) -> (r: &Vec<Book>)
        ensures
            r@ == self@,
    {
        &self.books
    }

    /// Number of books.
    pub fn book_count(&self) -> (r: usize)
        ensures
            r == self@.len(),
    {
        self.books.len()
    }

    /// The book with the given ordinal.
    pub fn book(&self, ordinal: usize) -> (r: Result<&Book, OutOfCanon>)
        ensures
            match r {
                Ok(book) => ordinal < self@.len() && *book == self@[ordinal as int],
                Err(e) => ordinal >= self@.len() && e == (OutOfCanon {
                    bound: CanonBound::Book,
                    given: ordinal,
                    limit: self@.len() as usize,
                }),
            },
    {
        if ordinal < self.books.len() {
            Ok(&self.books[ordinal])
        } else {
            Err(OutOfCanon { bound: CanonBound::Book, given: ordinal, limit: self.books.len() })
        }
    }

    /// Finds a book by its display name or one of its aliases. Case,
    /// periods and the amount of blank space do not matter; nothing else is
    /// forgiven.
    pub fn find_book(&self, name: &str) -> (r: Option<&Book>)
        requires
            self.wf(),
        ensures
            match r {
                Some(book) => {
                    &&& lookup(self@, name@) == Some(book.ordinal as int)
                    &&& book.ordinal < self@.len()
                    &&& *book == self@[book.ordinal as int]
                    &&& book.answers_to(name@)
                },
                None => {
                    &&& lookup(self@, name@) is None
                    &&& forall|i: int| 0 <= i < self@.len() ==> !(#[trigger] self@[i]).answers_to(name@)
                },
            },
    {
        let wanted = normalize(name);
        let mut i: usize = 0;
        while i < self.books.len()
            invariant
                i <= self.books@.len(),
                self.wf(),
                wanted@ == normalized(name@),
                forall|b: int| 0 <= b < i ==> !(#[trigger] self@[b]).answers_to(name@),
            decreases self.books.len() - i,
        {
            assert(texts(self.keys@[i as int]@) == self.books@[i as int].norm_keys());
            if listed(&self.keys[i], &wanted) {
                proof {
                    assert(self@[i as int].well_formed(i as int));
                    lemma_lookup_unique(self@, name@, i as int);
                }
                return Some(&self.books[i]);
            }
            i += 1;
        }
        None
    }

    /// Number of chapters of a book.
    pub fn chapter_count(&self, book: usize) -> (r: Result<u32, OutOfCanon>)
        requires
            self.wf(),
        ensures
            match r {
                Ok(n) => book < self@.len() && n == self@[book as int].chapters(),
                Err(e) => book >= self@.len() && e == (OutOfCanon {
                    bound: CanonBound::Book,
                    given: book,
                    limit: self@.len() as usize,
                }),
            },
    {
        if book < self.books.len() {
            assert(self@[book as int].well_formed(book as int));
            Ok(self.books[book].verse_counts.len() as u32)
        } else {
            Err(OutOfCanon { bound: CanonBound::Book, given: book, limit: self.books.len() })
        }
    }

    /// Number of verses of a chapter of a book. An unknown book is
    /// reported before an unknown chapter.
    pub fn verse_count(&self, book: usize, chapter: u32) -> (r: Result<u32, OutOfCanon>)
        requires
            self.wf(),
        ensures
            match r {
                Ok(n) => {
                    &&& book < self@.len()
                    &&& self@[book as int].has_chapter(chapter as int)
                    &&& n == self@[book as int].verses_in(chapter as int)
                    &&& n >= 1
                },
                Err(e) => {
                    if book >= self@.len() {
                        e == (OutOfCanon {
                            bound: CanonBound::Book,
                            given: book,
                            limit: self@.len() as usize,
                        })
                    } else {
                        &&& !self@[book as int].has_chapter(chapter as int)
                        &&& e == (OutOfCanon {
                            bound: CanonBound::Chapter,
                            given: chapter as usize,
                            limit: self@[book as int].chapters() as usize,
                        })
                    }
                },
            },
    {
        if book >= self.books.len() {
            return Err(OutOfCanon { bound: CanonBound::Book, given: book, limit: self.books.len() });
        }
        assert(self@[book as int].well_formed(book as int));
        let counts = &self.books[book].verse_counts;
        if chapter == 0 || chapter as usize > counts.len() {
            return Err(
                OutOfCanon { bound: CanonBound::Chapter, given: chapter as usize, limit: counts.len() },
            );
        }
        Ok(counts[chapter as usize - 1])
    }
}

} // verus!
