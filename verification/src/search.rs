//! The inverted index over verse text, and search against it.
//!
//! The index keeps, for each term, the verses in which it occurs and how
//! often. It is built once from the whole corpus and never changed after;
//! a new corpus gets a new index.
use vstd::prelude::*;
use vstd::string::StringSliceAdditionalSpecFns;
use vstd::utf8::{decode_utf8, encode_utf8_decode_utf8, valid_utf8};
use crate::ranking::{
    HitView, Mark, SearchHit, Snippet, Verse, all_rank_before, capped, excerpt, hit_of, hit_views,
    holds_position, is_ranking, lemma_rank_order, mark_words, ranks_before, relevances, score,
    snippet_of,
};
use crate::locator::Locator;
use crate::text::{chars_of, listed, same_chars, string_of, texts};
use crate::words::{
    WordAt, frequency, lemma_occurrences, lemma_occurrences_push, occurrences, split_words, terms,
    terms_of, word_views, words,
};

verus! {

/// A query that is no text: its bytes are not UTF-8.
#[derive(Debug, Clone, Copy, PartialEq, Eq, Structural)]
pub struct MalformedQuery {}

/// `core::str::from_utf8` of std: the same bytes as a string slice if they
/// are UTF-8, and nothing if they are not.
#[verifier::external_body]
fn text_of(bytes: &[u8]) -> (r: Option<&str>)
    ensures
        match r {
            Some(text) => valid_utf8(bytes@) && text.spec_bytes() == bytes@,
            None => !valid_utf8(bytes@),
        },
{
    match core::str::from_utf8(bytes) {
        Ok(text) => Some(text),
        Err(_) => None,
    }
}

/// The snippet limit of an index that was built without one.
pub const DEFAULT_SNIPPET_LIMIT: usize = 240;

/// A term occurs `frequency` times in the verse at `locator`.
#[derive(Debug, Clone, Copy, PartialEq, Eq, Structural)]
pub struct Posting {
    pub locator: Locator,
    pub frequency: usize,
}

/// The postings of a term in a corpus: the verses in which it occurs, in
/// the order of the corpus, each with the number of its occurrences.
pub open spec fn postings_of(corpus: Seq<Verse>, t: Seq<char>) -> Seq<Posting>
    decreases corpus.len(),
{
    if corpus.len() == 0 {
        Seq::empty()
    } else if frequency(corpus.last().text@, t) > 0 {
        postings_of(corpus.drop_last(), t).push(
            Posting {
                locator: corpus.last().locator,
                frequency: frequency(corpus.last().text@, t) as usize,
            },
        )
    } else {
        postings_of(corpus.drop_last(), t)
    }
}

/// Verses in which a term does not occur add nothing to its postings.
proof fn lemma_postings_gap(corpus: Seq<Verse>, t: Seq<char>, a: int, b: int)
    requires
        0 <= a <= b <= corpus.len(),
        forall|x: int| a <= x < b ==> frequency((#[trigger] corpus[x]).text@, t) == 0,
    ensures
        postings_of(corpus.take(b), t) == postings_of(corpus.take(a), t),
    decreases b - a,
{
    if a < b {
        lemma_postings_gap(corpus, t, a, b - 1);
        assert(corpus.take(b).drop_last() =~= corpus.take(b - 1));
        assert(corpus.take(b).last() == corpus[b - 1]);
    }
}

/// A term occurs `frequency` times in the verse at position `doc`.
struct Tally {
    doc: usize,
    frequency: usize,
}

/// A term and where it occurs.
struct Entry {
    term: Vec<char>,
    postings: Vec<Tally>,
}

/// The inverted index of a corpus, together with the corpus itself.
pub struct SearchIndex {
    docs: Vec<Verse>,
    entries: Vec<Entry>,
    shelves: Vec<Vec<usize>>,
    snippet_limit: usize,
}

/// Number of shelves over which the entries are spread, so that looking a
/// term up reads one shelf and not the whole vocabulary.
const SHELVES: usize = 4096;

/// The shelf of a term.
spec fn shelf_of(t: Seq<char>) -> int
    decreases t.len(),
{
    if t.len() == 0 {
        0
    } else {
        (shelf_of(t.drop_last()) * 31 + t.last() as u32) % (SHELVES as int)
    }
}

/// Every entry is listed on the shelf of its term, and the shelves list
/// nothing but entries.
spec fn shelved(entries: Seq<Entry>, shelves: Seq<Vec<usize>>) -> bool {
    &&& shelves.len() == SHELVES
    &&& forall|b: int, k: int|
        0 <= b < shelves.len() && 0 <= k < shelves[b]@.len() ==> (#[trigger] shelves[b]@[k])
            < entries.len()
    &&& forall|e: int|
        0 <= e < entries.len() ==> shelves[shelf_of((#[trigger] entries[e]).term@)]@.contains(
            e as usize,
        )
}

/// Every term has a shelf.
proof fn lemma_shelf_bounds(t: Seq<char>)
    ensures
        0 <= shelf_of(t) < SHELVES,
    decreases t.len(),
{
    if t.len() > 0 {
        lemma_shelf_bounds(t.drop_last());
    }
}

/// Computes the shelf of a term.
fn shelf(term: &Vec<char>) -> (r: usize)
    ensures
        r == shelf_of(term@),
        r < SHELVES,
{
    let mut h: u64 = 0;
    let mut i: usize = 0;
    while i < term.len()
        invariant
            i <= term.len(),
            h < SHELVES,
            h == shelf_of(term@.take(i as int)),
        decreases term.len() - i,
    {
        proof {
            assert(term@.take(i + 1).drop_last() =~= term@.take(i as int));
            assert(term@.take(i + 1).last() == term@[i as int]);
        }
        let c: u64 = term[i] as u32 as u64;
        h = (h * 31 + c) % (SHELVES as u64);
        i += 1;
    }
    assert(term@.take(term.len() as int) =~= term@);
    h as usize
}

/// What the postings say of the verse at position `d`: the sum of their
/// frequencies for it.
spec fn total(ps: Seq<Tally>, d: int) -> nat
    decreases ps.len(),
{
    if ps.len() == 0 {
        0
    } else {
        total(ps.drop_last(), d) + if ps.last().doc == d {
            ps.last().frequency as nat
        } else {
            0nat
        }
    }
}

/// The tallies stand in the order of the corpus, one for a verse at most,
/// and none counts nothing.
spec fn ascending(ps: Seq<Tally>) -> bool {
    &&& forall|j: int, k: int| 0 <= j < k < ps.len() ==> (#[trigger] ps[j]).doc < (#[trigger] ps[k]).doc
    &&& forall|k: int| 0 <= k < ps.len() ==> (#[trigger] ps[k]).frequency >= 1
}

/// Whether a term has an entry.
spec fn has_entry(entries: Seq<Entry>, t: Seq<char>) -> bool {
    exists|e: int| 0 <= e < entries.len() && (#[trigger] entries[e]).term@ == t
}

/// Whether no term has two entries.
spec fn distinct_terms(entries: Seq<Entry>) -> bool {
    forall|i: int, j: int|
        0 <= i < j < entries.len() ==> (#[trigger] entries[i]).term@ != (#[trigger] entries[j]).term@
}

/// The entries describe the first `d` verses, and of verse `d` the terms
/// `seen`.
spec fn partial(entries: Seq<Entry>, docs: Seq<Verse>, d: int, seen: Seq<Seq<char>>) -> bool {
    &&& distinct_terms(entries)
    &&& forall|e: int| 0 <= e < entries.len() ==> ascending((#[trigger] entries[e]).postings@)
    &&& forall|e: int, k: int|
        0 <= e < entries.len() && 0 <= k < entries[e].postings@.len() ==> (
        #[trigger] entries[e].postings@[k]).doc <= d
    &&& forall|e: int, x: int|
        0 <= e < entries.len() && 0 <= x < d ==> #[trigger] total(entries[e].postings@, x)
            == frequency(docs[x].text@, entries[e].term@)
    &&& forall|e: int|
        0 <= e < entries.len() ==> total((#[trigger] entries[e]).postings@, d) == occurrences(
            seen,
            entries[e].term@,
        )
    &&& forall|t: Seq<char>, x: int|
        0 <= x < d && !has_entry(entries, t) ==> #[trigger] frequency(docs[x].text@, t) == 0
    &&& forall|t: Seq<char>| !has_entry(entries, t) ==> #[trigger] occurrences(seen, t) == 0
}

/// The entries describe the first `n` verses.
spec fn fits(entries: Seq<Entry>, docs: Seq<Verse>, n: int) -> bool {
    &&& distinct_terms(entries)
    &&& forall|e: int| 0 <= e < entries.len() ==> ascending((#[trigger] entries[e]).postings@)
    &&& forall|e: int, k: int|
        0 <= e < entries.len() && 0 <= k < entries[e].postings@.len() ==> (
        #[trigger] entries[e].postings@[k]).doc < n
    &&& forall|e: int, x: int|
        0 <= e < entries.len() && 0 <= x < n ==> #[trigger] total(entries[e].postings@, x)
            == frequency(docs[x].text@, entries[e].term@)
    &&& forall|t: Seq<char>, x: int|
        0 <= x < n && !has_entry(entries, t) ==> #[trigger] frequency(docs[x].text@, t) == 0
}

/// One more tally adds its frequency to what is said of its verse.
proof fn lemma_total_push(ps: Seq<Tally>, p: Tally, d: int)
    ensures
        total(ps.push(p), d) == total(ps, d) + if p.doc == d {
            p.frequency as nat
        } else {
            0nat
        },
{
    assert(ps.push(p).drop_last() =~= ps);
}

/// The last tally raised by one adds one to what is said of its verse.
proof fn lemma_total_bump(ps: Seq<Tally>, p: Tally, d: int)
    requires
        ps.len() > 0,
        p.doc == ps.last().doc,
        p.frequency == ps.last().frequency + 1,
    ensures
        total(ps.update(ps.len() - 1, p), d) == total(ps, d) + if p.doc == d {
            1nat
        } else {
            0nat
        },
        ps.last().doc == d ==> ps.last().frequency <= total(ps, d),
{
    assert(ps.update(ps.len() - 1, p).drop_last() =~= ps.drop_last());
}

/// Nothing is said of a verse that has no tally.
proof fn lemma_total_absent(ps: Seq<Tally>, d: int)
    requires
        forall|k: int| 0 <= k < ps.len() ==> (#[trigger] ps[k]).doc != d,
    ensures
        total(ps, d) == 0,
    decreases ps.len(),
{
    if ps.len() > 0 {
        assert forall|k: int| 0 <= k < ps.drop_last().len() implies (#[trigger] ps.drop_last()[k]).doc
            != d by {
            assert(ps.drop_last()[k] == ps[k]);
        }
        lemma_total_absent(ps.drop_last(), d);
        assert(ps.last() == ps[ps.len() - 1]);
    }
}

/// Among tallies in order, the one for a verse is all that is said of it.
proof fn lemma_total_single(ps: Seq<Tally>, m: int, d: int)
    requires
        ascending(ps),
        0 <= m < ps.len(),
        ps[m].doc == d,
    ensures
        total(ps, d) == ps[m].frequency,
    decreases ps.len(),
{
    let rest = ps.drop_last();
    if m == ps.len() - 1 {
        assert forall|k: int| 0 <= k < rest.len() implies (#[trigger] rest[k]).doc != d by {
            assert(rest[k] == ps[k]);
            assert(ps[k].doc < ps[m].doc);
        }
        lemma_total_absent(rest, d);
    } else {
        assert(ps[m].doc < ps[ps.len() - 1].doc);
        assert(ascending(rest)) by {
            assert forall|j: int, k: int| 0 <= j < k < rest.len() implies (#[trigger] rest[j]).doc < (
            #[trigger] rest[k]).doc by {
                assert(rest[j] == ps[j]);
                assert(rest[k] == ps[k]);
            }
            assert forall|k: int| 0 <= k < rest.len() implies (#[trigger] rest[k]).frequency >= 1 by {
                assert(rest[k] == ps[k]);
            }
        }
        assert(rest[m] == ps[m]);
        lemma_total_single(rest, m, d);
    }
}

/// Entries that describe the verses before `d` say nothing yet of `d`.
proof fn lemma_start(entries: Seq<Entry>, docs: Seq<Verse>, d: int)
    requires
        fits(entries, docs, d),
    ensures
        partial(entries, docs, d, Seq::empty()),
{
    assert forall|e: int| 0 <= e < entries.len() implies total((#[trigger] entries[e]).postings@, d)
        == 0 by {
        let ps = entries[e].postings@;
        assert forall|k: int| 0 <= k < ps.len() implies (#[trigger] ps[k]).doc != d by {
            assert(entries[e].postings@[k].doc < d);
        }
        lemma_total_absent(ps, d);
    }
}

/// Once all terms of verse `d` are seen, the entries describe it too.
proof fn lemma_finish(entries: Seq<Entry>, docs: Seq<Verse>, d: int)
    requires
        0 <= d < docs.len(),
        partial(entries, docs, d, terms_of(docs[d].text@)),
    ensures
        fits(entries, docs, d + 1),
{
    let seen = terms_of(docs[d].text@);
    assert forall|e: int, x: int| 0 <= e < entries.len() && 0 <= x < d + 1 implies #[trigger] total(
        entries[e].postings@,
        x,
    ) == frequency(docs[x].text@, entries[e].term@) by {
        if x == d {
            assert(total(entries[e].postings@, d) == occurrences(seen, entries[e].term@));
        }
    }
    assert forall|t: Seq<char>, x: int| 0 <= x < d + 1 && !has_entry(entries, t) implies #[trigger] frequency(
        docs[x].text@,
        t,
    ) == 0 by {
        if x == d {
            assert(occurrences(seen, t) == 0);
        }
    }
}

/// One more occurrence of a term that has an entry, recorded there.
proof fn lemma_step_known(
    before: Seq<Entry>,
    after: Seq<Entry>,
    docs: Seq<Verse>,
    d: int,
    seen: Seq<Seq<char>>,
    e: int,
)
    requires
        partial(before, docs, d, seen),
        0 <= e < before.len(),
        after.len() == before.len(),
        forall|j: int| 0 <= j < before.len() && j != e ==> after[j] == before[j],
        after[e].term@ == before[e].term@,
        forall|x: int|
            #[trigger] total(after[e].postings@, x) == total(before[e].postings@, x) + if x == d {
                1nat
            } else {
                0nat
            },
        forall|k: int| 0 <= k < after[e].postings@.len() ==> (#[trigger] after[e].postings@[k]).doc <= d,
        ascending(after[e].postings@),
    ensures
        partial(after, docs, d, seen.push(before[e].term@)),
{
    let t = before[e].term@;
    let now = seen.push(t);
    assert forall|j: int| 0 <= j < after.len() implies (#[trigger] after[j]).term@ == before[j].term@ by {}
    assert forall|j: int| 0 <= j < after.len() implies ascending((#[trigger] after[j]).postings@) by {
        if j != e {
            assert(ascending(before[j].postings@));
        }
    }
    assert(distinct_terms(after)) by {
        assert forall|i: int, j: int| 0 <= i < j < after.len() implies (#[trigger] after[i]).term@ != (
        #[trigger] after[j]).term@ by {
            assert(before[i].term@ != before[j].term@);
        }
    }
    assert forall|x: Seq<char>| has_entry(after, x) == has_entry(before, x) by {
        if has_entry(after, x) {
            let j = choose|j: int| 0 <= j < after.len() && (#[trigger] after[j]).term@ == x;
            assert(before[j].term@ == x);
        }
        if has_entry(before, x) {
            let j = choose|j: int| 0 <= j < before.len() && (#[trigger] before[j]).term@ == x;
            assert(after[j].term@ == x);
        }
    }
    assert forall|j: int, k: int|
        0 <= j < after.len() && 0 <= k < after[j].postings@.len() implies (
    #[trigger] after[j].postings@[k]).doc <= d by {
        if j != e {
            assert(before[j].postings@[k].doc <= d);
        }
    }
    assert forall|j: int, x: int| 0 <= j < after.len() && 0 <= x < d implies #[trigger] total(
        after[j].postings@,
        x,
    ) == frequency(docs[x].text@, after[j].term@) by {
        assert(total(before[j].postings@, x) == frequency(docs[x].text@, before[j].term@));
    }
    assert forall|j: int| 0 <= j < after.len() implies total((#[trigger] after[j]).postings@, d)
        == occurrences(now, after[j].term@) by {
        lemma_occurrences_push(seen, t, after[j].term@);
        assert(total(before[j].postings@, d) == occurrences(seen, before[j].term@));
        if j != e {
            if j < e {
                assert(before[j].term@ != before[e].term@);
            } else {
                assert(before[e].term@ != before[j].term@);
            }
        }
    }
    assert forall|x: Seq<char>, y: int| 0 <= y < d && !has_entry(after, x) implies #[trigger] frequency(
        docs[y].text@,
        x,
    ) == 0 by {
        assert(!has_entry(before, x));
    }
    assert forall|x: Seq<char>| !has_entry(after, x) implies #[trigger] occurrences(now, x) == 0 by {
        assert(!has_entry(before, x));
        assert(has_entry(before, t));
        lemma_occurrences_push(seen, t, x);
        assert(occurrences(seen, x) == 0);
    }
}

/// The first occurrence of a term that had no entry, recorded in a new
/// one.
proof fn lemma_step_new(
    before: Seq<Entry>,
    entry: Entry,
    docs: Seq<Verse>,
    d: int,
    seen: Seq<Seq<char>>,
)
    requires
        partial(before, docs, d, seen),
        !has_entry(before, entry.term@),
        entry.postings@.len() == 1,
        entry.postings@[0].doc == d,
        entry.postings@[0].frequency == 1,
    ensures
        partial(before.push(entry), docs, d, seen.push(entry.term@)),
{
    let t = entry.term@;
    let after = before.push(entry);
    let now = seen.push(t);
    let n = before.len() as int;
    assert forall|j: int| 0 <= j < n implies (#[trigger] before[j]).term@ != t by {}
    assert forall|j: int| 0 <= j < after.len() implies ascending((#[trigger] after[j]).postings@) by {
        if j < n {
            assert(ascending(before[j].postings@));
        }
    }
    assert(distinct_terms(after)) by {
        assert forall|i: int, j: int| 0 <= i < j < after.len() implies (#[trigger] after[i]).term@ != (
        #[trigger] after[j]).term@ by {
            if j < n {
                assert(before[i].term@ != before[j].term@);
            } else {
                assert(before[i].term@ != t);
            }
        }
    }
    assert forall|x: Seq<char>| has_entry(after, x) == (has_entry(before, x) || x == t) by {
        if has_entry(after, x) {
            let j = choose|j: int| 0 <= j < after.len() && (#[trigger] after[j]).term@ == x;
            if j < n {
                assert(before[j].term@ == x);
            }
        }
        if has_entry(before, x) {
            let j = choose|j: int| 0 <= j < before.len() && (#[trigger] before[j]).term@ == x;
            assert(after[j].term@ == x);
        }
        if x == t {
            assert(after[n].term@ == x);
        }
    }
    assert forall|x: int| total(entry.postings@, x) == (if x == d {
        1nat
    } else {
        0nat
    }) by {
        assert(entry.postings@.drop_last().len() == 0);
        assert(total(entry.postings@.drop_last(), x) == 0);
        assert(entry.postings@.last() == entry.postings@[0]);
    }
    assert forall|j: int, k: int|
        0 <= j < after.len() && 0 <= k < after[j].postings@.len() implies (
    #[trigger] after[j].postings@[k]).doc <= d by {
        if j < n {
            assert(before[j].postings@[k].doc <= d);
        }
    }
    assert forall|j: int, x: int| 0 <= j < after.len() && 0 <= x < d implies #[trigger] total(
        after[j].postings@,
        x,
    ) == frequency(docs[x].text@, after[j].term@) by {
        if j < n {
            assert(total(before[j].postings@, x) == frequency(docs[x].text@, before[j].term@));
        } else {
            assert(frequency(docs[x].text@, t) == 0);
        }
    }
    assert forall|j: int| 0 <= j < after.len() implies total((#[trigger] after[j]).postings@, d)
        == occurrences(now, after[j].term@) by {
        lemma_occurrences_push(seen, t, after[j].term@);
        if j < n {
            assert(total(before[j].postings@, d) == occurrences(seen, before[j].term@));
            assert(before[j].term@ != t);
        } else {
            assert(occurrences(seen, t) == 0);
        }
    }
    assert forall|x: Seq<char>, y: int| 0 <= y < d && !has_entry(after, x) implies #[trigger] frequency(
        docs[y].text@,
        x,
    ) == 0 by {
        assert(!has_entry(before, x));
    }
    assert forall|x: Seq<char>| !has_entry(after, x) implies #[trigger] occurrences(now, x) == 0 by {
        assert(!has_entry(before, x));
        lemma_occurrences_push(seen, t, x);
        assert(occurrences(seen, x) == 0);
    }
}

/// The entry of a term, if it has one.
fn find_entry(entries: &Vec<Entry>, shelves: &Vec<Vec<usize>>, term: &Vec<char>) -> (r: Option<usize>)
    requires
        shelved(entries@, shelves@),
    ensures
        match r {
            Some(e) => e < entries@.len() && entries@[e as int].term@ == term@,
            None => !has_entry(entries@, term@),
        },
{
    let h = shelf(term);
    let list = &shelves[h];
    let mut k: usize = 0;
    while k < list.len()
        invariant
            k <= list.len(),
            h < shelves@.len(),
            *list == shelves@[h as int],
            shelved(entries@, shelves@),
            forall|j: int| 0 <= j < k ==> entries@[(#[trigger] list@[j]) as int].term@ != term@,
        decreases list.len() - k,
    {
        let e = list[k];
        assert(shelves@[h as int]@[k as int] < entries@.len());
        if same_chars(&entries[e].term, term) {
            return Some(e);
        }
        k += 1;
    }
    let size = entries.len();
    proof {
        if has_entry(entries@, term@) {
            let e = choose|e: int| 0 <= e < entries@.len() && (#[trigger] entries@[e]).term@ == term@;
            assert(e < size);
            let slot = e as usize;
            assert(shelf_of(entries@[e].term@) == h);
            assert(shelves@[h as int]@.contains(slot));
            assert(list@.contains(slot));
            let j = choose|j: int| 0 <= j < list@.len() && list@[j] == slot;
            assert(entries@[list@[j] as int].term@ != term@);
            assert(false);
        }
    }
    None
}

/// Lists a new entry on its shelf.
fn enlist(shelves: &mut Vec<Vec<usize>>, h: usize, e: usize)
    requires
        h < old(shelves)@.len(),
    ensures
        final(shelves)@.len() == old(shelves)@.len(),
        final(shelves)@[h as int]@ == old(shelves)@[h as int]@.push(e),
        forall|b: int|
            0 <= b < old(shelves)@.len() && b != h ==> final(shelves)@[b] == old(shelves)@[b],
{
    shelves[h].push(e);
}

/// Records one more occurrence in verse `d` of the term of entry `e`.
fn record(entries: &mut Vec<Entry>, e: usize, d: usize)
    requires
        e < old(entries)@.len(),
        total(old(entries)@[e as int].postings@, d as int) < usize::MAX,
        ascending(old(entries)@[e as int].postings@),
        forall|k: int|
            0 <= k < old(entries)@[e as int].postings@.len() ==> (
            #[trigger] old(entries)@[e as int].postings@[k]).doc <= d,
    ensures
        final(entries)@.len() == old(entries)@.len(),
        forall|j: int|
            0 <= j < old(entries)@.len() && j != e ==> final(entries)@[j] == old(entries)@[j],
        final(entries)@[e as int].term@ == old(entries)@[e as int].term@,
        forall|x: int|
            #[trigger] total(final(entries)@[e as int].postings@, x) == total(
                old(entries)@[e as int].postings@,
                x,
            ) + if x == d {
                1nat
            } else {
                0nat
            },
        forall|k: int|
            0 <= k < final(entries)@[e as int].postings@.len() ==> (
            #[trigger] final(entries)@[e as int].postings@[k]).doc <= d,
        ascending(final(entries)@[e as int].postings@),
{
    let ghost ps = entries@[e as int].postings@;
    let n = entries[e].postings.len();
    if n > 0 && entries[e].postings[n - 1].doc == d {
        let f = entries[e].postings[n - 1].frequency;
        proof {
            let p = Tally { doc: d, frequency: (f + 1) as usize };
            assert(total(ps, d as int) < usize::MAX);
            assert(ps.drop_last().len() == ps.len() - 1);
            assert(f <= total(ps, d as int));
        }
        entries[e].postings[n - 1].frequency = f + 1;
        proof {
            let p = Tally { doc: d, frequency: (f + 1) as usize };
            assert(entries@[e as int].postings@ =~= ps.update(n - 1, p));
            assert forall|x: int|
                #[trigger] total(entries@[e as int].postings@, x) == total(ps, x) + if x == d {
                    1nat
                } else {
                    0nat
                } by {
                lemma_total_bump(ps, p, x);
            }
        }
    } else {
        let p = Tally { doc: d, frequency: 1 };
        entries[e].postings.push(p);
        proof {
            assert(entries@[e as int].postings@ =~= ps.push(p));
            assert(ascending(ps.push(p))) by {
                assert forall|j: int| 0 <= j < ps.len() implies (#[trigger] ps[j]).doc < d by {
                    assert(ps[j].doc <= d);
                    if j < n - 1 {
                        assert(ps[j].doc < ps[n - 1].doc);
                    }
                }
            }
            assert forall|x: int|
                #[trigger] total(entries@[e as int].postings@, x) == total(ps, x) + if x == d {
                    1nat
                } else {
                    0nat
                } by {
                lemma_total_push(ps, p, x);
            }
        }
    }
}

/// Adds the terms of verse `d` to the entries.
fn index_verse(
    entries: &mut Vec<Entry>,
    shelves: &mut Vec<Vec<usize>>,
    docs: &Vec<Verse>,
    d: usize,
)
    requires
        d < docs.len(),
        fits(old(entries)@, docs@, d as int),
        shelved(old(entries)@, old(shelves)@),
    ensures
        fits(final(entries)@, docs@, d + 1),
        shelved(final(entries)@, final(shelves)@),
{
    let ts = terms(docs[d].text.as_str());
    let ghost all = texts(ts@);
    let count = ts.len();
    proof {
        lemma_start(entries@, docs@, d as int);
        assert(all.take(0) =~= Seq::<Seq<char>>::empty());
    }
    for t in it: ts
        invariant
            it.seq() == ts@,
            all == texts(ts@),
            all.len() == count,
            all == terms_of(docs@[d as int].text@),
            d < docs.len(),
            partial(entries@, docs@, d as int, all.take(it.index() as int)),
            shelved(entries@, shelves@),
    {
        let ghost k = it.index() as int;
        let ghost seen = all.take(k);
        let ghost before = entries@;
        let ghost listed_before = shelves@;
        proof {
            assert(all[k] == t@);
            assert(all.take(k + 1) =~= seen.push(t@));
        }
        match find_entry(entries, shelves, &t) {
            Some(e) => {
                proof {
                    assert(total(before[e as int].postings@, d as int) == occurrences(
                        seen,
                        before[e as int].term@,
                    ));
                    lemma_occurrences(seen, before[e as int].term@);
                    assert(seen.len() == k);
                }
                record(entries, e, d);
                proof {
                    lemma_step_known(before, entries@, docs@, d as int, seen, e as int);
                    assert forall|j: int| 0 <= j < entries@.len() implies shelves@[shelf_of(
                        (#[trigger] entries@[j]).term@,
                    )]@.contains(j as usize) by {
                        assert(entries@[j].term@ == before[j].term@);
                    }
                }
            },
            None => {
                let h = shelf(&t);
                let slot = entries.len();
                let mut postings: Vec<Tally> = Vec::new();
                postings.push(Tally { doc: d, frequency: 1 });
                let entry = Entry { term: t, postings };
                proof {
                    lemma_step_new(before, entry, docs@, d as int, seen);
                }
                entries.push(entry);
                enlist(shelves, h, slot);
                proof {
                    assert forall|b: int, j: int|
                        0 <= b < shelves@.len() && 0 <= j < shelves@[b]@.len() implies (
                    #[trigger] shelves@[b]@[j]) < entries@.len() by {
                        if b == h {
                            if j < listed_before[b]@.len() {
                                assert(shelves@[b]@[j] == listed_before[b]@[j]);
                            }
                        } else {
                            assert(shelves@[b]@[j] == listed_before[b]@[j]);
                        }
                    }
                    assert forall|j: int| 0 <= j < entries@.len() implies shelves@[shelf_of(
                        (#[trigger] entries@[j]).term@,
                    )]@.contains(j as usize) by {
                        let b = shelf_of(entries@[j].term@);
                        lemma_shelf_bounds(entries@[j].term@);
                        if j < before.len() {
                            assert(entries@[j] == before[j]);
                            assert(listed_before[b]@.contains(j as usize));
                            let i = choose|i: int|
                                0 <= i < listed_before[b]@.len() && listed_before[b]@[i]
                                    == j as usize;
                            assert(shelves@[b]@[i] == j as usize);
                        } else {
                            assert(shelves@[b]@[listed_before[b]@.len() as int] == j as usize);
                        }
                    }
                }
            },
        }
    }
    proof {
        assert(all.take(ts@.len() as int) =~= all);
        lemma_finish(entries@, docs@, d as int);
    }
}

/// A count added to a score, stopping at the largest `u64`.
fn add_capped(s: u64, f: usize) -> (r: u64)
    ensures
        r == capped((s + f) as nat),
{
    let wide: u64 = f as u64;
    if s > u64::MAX - wide {
        u64::MAX
    } else {
        s + wide
    }
}

/// The bounds of the words that match the query.
fn mark_matches(list: &Vec<WordAt>, query: &Vec<Vec<char>>) -> (r: Vec<Mark>)
    ensures
        r@ == mark_words(word_views(list@), texts(query@)),
{
    let mut marks: Vec<Mark> = Vec::new();
    let mut i: usize = 0;
    while i < list.len()
        invariant
            i <= list.len(),
            marks@ == mark_words(word_views(list@).take(i as int), texts(query@)),
        decreases list.len() - i,
    {
        proof {
            let ws = word_views(list@);
            assert(ws.take(i + 1).drop_last() =~= ws.take(i as int));
            assert(ws.take(i + 1).last() == list@[i as int]@);
        }
        if listed(query, &list[i].term) {
            marks.push(Mark { start: list[i].start, end: list[i].end });
        }
        i += 1;
    }
    assert(word_views(list@).take(list.len() as int) =~= word_views(list@));
    marks
}

/// The snippet of a text for a query.
pub fn make_snippet(text: &str, query: &Vec<Vec<char>>, limit: usize) -> (r: Snippet)
    ensures
        r@ == snippet_of(text@, texts(query@), limit as int),
{
    let mut chars = chars_of(text);
    if chars.len() > limit {
        chars.truncate(limit);
        assert(chars@ =~= text@.take(limit as int));
    }
    let list = split_words(&chars);
    let marks = mark_matches(&list, query);
    Snippet { text: string_of(&chars), marks }
}

/// Whether the verse at `d` may still become a hit: it matches, and comes
/// after the last hit if there is one.
spec fn eligible(corpus: Seq<Verse>, scores: Seq<u64>, last: Option<usize>, d: int) -> bool {
    scores[d] > 0 && (last matches Some(l) ==> ranks_before(corpus, scores, l as int, d))
}

impl SearchIndex {
    /// The corpus that was indexed.
    pub closed spec fn corpus(&self) -> Seq<Verse> {
        self.docs@
    }

    /// The largest number of characters a snippet may have.
    pub closed spec fn snippet_limit(&self) -> int {
        self.snippet_limit as int
    }

    /// The invariant of the index: what it says of each term and verse is
    /// how often the term occurs in the verse.
    pub closed spec fn wf(&self) -> bool {
        fits(self.entries@, self.docs@, self.docs@.len() as int) && shelved(
            self.entries@,
            self.shelves@,
        )
    }

    /// Builds the index of a corpus, with the default snippet limit.
    pub fn build(corpus: Vec<Verse>) -> (r: SearchIndex)
        ensures
            r.wf(),
            r.corpus() == corpus@,
            r.snippet_limit() == DEFAULT_SNIPPET_LIMIT,
    {
        SearchIndex::build_with_limit(corpus, DEFAULT_SNIPPET_LIMIT)
    }

    /// Builds the index of a corpus. No snippet of a search against it
    /// will be longer than `snippet_limit` characters.
    pub fn build_with_limit(corpus: Vec<Verse>, snippet_limit: usize) -> (r: SearchIndex)
        ensures
            r.wf(),
            r.corpus() == corpus@,
            r.snippet_limit() == snippet_limit,
    {
        let mut entries: Vec<Entry> = Vec::new();
        let mut shelves: Vec<Vec<usize>> = Vec::new();
        while shelves.len() < SHELVES
            invariant
                shelves@.len() <= SHELVES,
                forall|b: int| 0 <= b < shelves@.len() ==> (#[trigger] shelves@[b])@.len() == 0,
            decreases SHELVES - shelves.len(),
        {
            shelves.push(Vec::new());
        }
        let mut d: usize = 0;
        while d < corpus.len()
            invariant
                d <= corpus.len(),
                fits(entries@, corpus@, d as int),
                shelved(entries@, shelves@),
            decreases corpus.len() - d,
        {
            index_verse(&mut entries, &mut shelves, &corpus, d);
            d += 1;
        }
        SearchIndex { docs: corpus, entries, shelves, snippet_limit }
    }

    /// The verses of the corpus, in the order in which they were given.
    pub fn verses(&self) -> (r: &Vec<Verse>)
        ensures
            r@ == self.corpus(),
    {
        &self.docs
    }

    /// The postings of a term: the verses in which it occurs, in the order
    /// of the corpus, with the number of occurrences in each. The term is
    /// taken as it is written: in lower case and without punctuation.
    pub fn postings(&self, term: &str) -> (r: Vec<Posting>)
        requires
            self.wf(),
        ensures
            r@ == postings_of(self.corpus(), term@),
    {
        let t = chars_of(term);
        let mut out: Vec<Posting> = Vec::new();
        let ghost docs = self.docs@;
        let ghost n = self.docs@.len() as int;
        assert(docs.take(0) =~= Seq::<Verse>::empty());
        assert(docs.take(n) =~= docs);
        match find_entry(&self.entries, &self.shelves, &t) {
            None => {
                proof {
                    lemma_postings_gap(docs, t@, 0, n);
                }
            },
            Some(e) => {
                let ps = &self.entries[e].postings;
                let ghost mut reach: int = 0;
                let mut m: usize = 0;
                while m < ps.len()
                    invariant
                        m <= ps.len(),
                        self.wf(),
                        docs == self.docs@,
                        n == docs.len(),
                        e < self.entries@.len(),
                        *ps == self.entries@[e as int].postings,
                        self.entries@[e as int].term@ == t@,
                        0 <= reach <= n,
                        out@ == postings_of(docs.take(reach), t@),
                        m > 0 ==> reach == ps@[m - 1].doc + 1,
                        m == 0 ==> reach == 0,
                    decreases ps.len() - m,
                {
                    let p = &ps[m];
                    proof {
                        let here = p.doc as int;
                        assert(ascending(ps@));
                        assert(self.entries@[e as int].postings@[m as int].doc < n);
                        assert(reach <= here) by {
                            if m > 0 {
                                assert(ps@[m - 1].doc < ps@[m as int].doc);
                            }
                        }
                        assert forall|x: int| reach <= x < here implies frequency(
                            (#[trigger] docs[x]).text@,
                            t@,
                        ) == 0 by {
                            assert forall|k: int| 0 <= k < ps@.len() implies (#[trigger] ps@[k]).doc
                                != x by {
                                if k < m {
                                    if k < m - 1 {
                                        assert(ps@[k].doc < ps@[m - 1].doc);
                                    }
                                } else if k > m {
                                    assert(ps@[m as int].doc < ps@[k].doc);
                                }
                            }
                            lemma_total_absent(ps@, x);
                            assert(total(self.entries@[e as int].postings@, x) == frequency(
                                docs[x].text@,
                                self.entries@[e as int].term@,
                            ));
                        }
                        lemma_postings_gap(docs, t@, reach, here);
                        lemma_total_single(ps@, m as int, here);
                        assert(total(self.entries@[e as int].postings@, here) == frequency(
                            docs[here].text@,
                            self.entries@[e as int].term@,
                        ));
                        assert(ps@[m as int].frequency >= 1);
                        assert(docs.take(here + 1).drop_last() =~= docs.take(here));
                        assert(docs.take(here + 1).last() == docs[here]);
                        reach = here + 1;
                    }
                    out.push(Posting { locator: self.docs[p.doc].locator, frequency: p.frequency });
                    m += 1;
                }
                proof {
                    assert forall|x: int| reach <= x < n implies frequency(
                        (#[trigger] docs[x]).text@,
                        t@,
                    ) == 0 by {
                        assert(ascending(ps@));
                        assert forall|k: int| 0 <= k < ps@.len() implies (#[trigger] ps@[k]).doc
                            != x by {
                            if k < ps@.len() - 1 {
                                assert(ps@[k].doc < ps@[ps@.len() - 1].doc);
                            }
                        }
                        lemma_total_absent(ps@, x);
                        assert(total(self.entries@[e as int].postings@, x) == frequency(
                            docs[x].text@,
                            self.entries@[e as int].term@,
                        ));
                    }
                    lemma_postings_gap(docs, t@, reach, n);
                }
            },
        }
        out
    }

    /// Adds to each score the frequency of `term` in the verse.
    fn add_term(&self, scores: &mut Vec<u64>, term: &Vec<char>)
        requires
            self.wf(),
            old(scores)@.len() == self.docs@.len(),
        ensures
            final(scores)@.len() == self.docs@.len(),
            forall|d: int|
                0 <= d < self.docs@.len() ==> #[trigger] final(scores)@[d] == capped(
                    old(scores)@[d] as nat + frequency(self.docs@[d].text@, term@),
                ),
    {
        let ghost start = scores@;
        match find_entry(&self.entries, &self.shelves, term) {
            None => {
                assert forall|d: int| 0 <= d < self.docs@.len() implies #[trigger] scores@[d]
                    == capped(start[d] as nat + frequency(self.docs@[d].text@, term@)) by {
                    assert(frequency(self.docs@[d].text@, term@) == 0);
                }
            },
            Some(e) => {
                let ps = &self.entries[e].postings;
                let mut m: usize = 0;
                assert(ps@.take(0) =~= Seq::<Tally>::empty());
                while m < ps.len()
                    invariant
                        m <= ps.len(),
                        self.wf(),
                        e < self.entries@.len(),
                        *ps == self.entries@[e as int].postings,
                        scores@.len() == self.docs@.len(),
                        start.len() == self.docs@.len(),
                        forall|d: int|
                            0 <= d < self.docs@.len() ==> #[trigger] scores@[d] == capped(
                                start[d] as nat + total(ps@.take(m as int), d),
                            ),
                    decreases ps.len() - m,
                {
                    let p = &ps[m];
                    let ghost prior = scores@;
                    assert(self.entries@[e as int].postings@[m as int].doc < self.docs@.len());
                    let s = add_capped(scores[p.doc], p.frequency);
                    scores.set(p.doc, s);
                    proof {
                        assert(ps@.take(m + 1) =~= ps@.take(m as int).push(*p));
                        assert forall|d: int| 0 <= d < self.docs@.len() implies #[trigger] scores@[d]
                            == capped(start[d] as nat + total(ps@.take(m + 1), d)) by {
                            lemma_total_push(ps@.take(m as int), *p, d);
                            assert(prior[d] == capped(
                                start[d] as nat + total(ps@.take(m as int), d),
                            ));
                        }
                    }
                    m += 1;
                }
                proof {
                    assert(ps@.take(ps@.len() as int) =~= ps@);
                    assert forall|d: int| 0 <= d < self.docs@.len() implies #[trigger] scores@[d]
                        == capped(start[d] as nat + frequency(self.docs@[d].text@, term@)) by {
                        assert(total(self.entries@[e as int].postings@, d) == frequency(
                            self.docs@[d].text@,
                            self.entries@[e as int].term@,
                        ));
                    }
                }
            },
        }
    }

    /// The score of every verse for a query.
    fn score_all(&self, query: &Vec<Vec<char>>) -> (scores: Vec<u64>)
        requires
            self.wf(),
        ensures
            scores@ == relevances(self.docs@, texts(query@)),
    {
        let mut scores: Vec<u64> = Vec::new();
        while scores.len() < self.docs.len()
            invariant
                scores@.len() <= self.docs@.len(),
                forall|d: int| 0 <= d < scores@.len() ==> #[trigger] scores@[d] == 0,
            decreases self.docs.len() - scores.len(),
        {
            scores.push(0);
        }
        let ghost q = texts(query@);
        let mut i: usize = 0;
        assert(q.take(0) =~= Seq::<Seq<char>>::empty());
        while i < query.len()
            invariant
                i <= query.len(),
                self.wf(),
                q == texts(query@),
                scores@.len() == self.docs@.len(),
                forall|d: int|
                    0 <= d < self.docs@.len() ==> #[trigger] scores@[d] == capped(
                        score(self.docs@[d].text@, q.take(i as int)),
                    ),
            decreases query.len() - i,
        {
            let ghost prior = scores@;
            self.add_term(&mut scores, &query[i]);
            proof {
                assert(q.take(i + 1).drop_last() =~= q.take(i as int));
                assert(q.take(i + 1).last() == query@[i as int]@);
                assert forall|d: int| 0 <= d < self.docs@.len() implies #[trigger] scores@[d]
                    == capped(score(self.docs@[d].text@, q.take(i + 1))) by {
                    assert(prior[d] == capped(score(self.docs@[d].text@, q.take(i as int))));
                }
            }
            i += 1;
        }
        assert(q.take(query@.len() as int) =~= q);
        assert(scores@ =~= relevances(self.docs@, q));
        scores
    }

    /// Whether the verse at `a` comes before the verse at `b` among hits.
    fn outranks(&self, scores: &Vec<u64>, a: usize, b: usize) -> (r: bool)
        requires
            scores@.len() == self.docs@.len(),
            a < self.docs@.len(),
            b < self.docs@.len(),
        ensures
            r == ranks_before(self.docs@, scores@, a as int, b as int),
    {
        let la = &self.docs[a].locator;
        let lb = &self.docs[b].locator;
        scores[a] > scores[b] || (scores[a] == scores[b] && (la.precedes(lb) || (la.same(lb) && a
            < b)))
    }

    /// The matching verse that comes first after the last hit.
    fn best_after(&self, scores: &Vec<u64>, last: Option<usize>) -> (r: Option<usize>)
        requires
            scores@.len() == self.docs@.len(),
            last matches Some(l) ==> l < self.docs@.len(),
        ensures
            match r {
                None => forall|d: int|
                    0 <= d < self.docs@.len() ==> !#[trigger] eligible(self.docs@, scores@, last, d),
                Some(b) => {
                    &&& b < self.docs@.len()
                    &&& eligible(self.docs@, scores@, last, b as int)
                    &&& forall|d: int|
                        0 <= d < self.docs@.len() && #[trigger] eligible(
                            self.docs@,
                            scores@,
                            last,
                            d,
                        ) ==> d == b || ranks_before(self.docs@, scores@, b as int, d)
                },
            },
    {
        let mut best: Option<usize> = None;
        let mut d: usize = 0;
        while d < self.docs.len()
            invariant
                d <= self.docs@.len(),
                scores@.len() == self.docs@.len(),
                last matches Some(l) ==> l < self.docs@.len(),
                match best {
                    None => forall|x: int|
                        0 <= x < d ==> !#[trigger] eligible(self.docs@, scores@, last, x),
                    Some(b) => {
                        &&& b < d
                        &&& eligible(self.docs@, scores@, last, b as int)
                        &&& forall|x: int|
                            0 <= x < d && #[trigger] eligible(self.docs@, scores@, last, x) ==> x
                                == b || ranks_before(self.docs@, scores@, b as int, x)
                    },
                },
            decreases self.docs.len() - d,
        {
            let after_last = match last {
                None => true,
                Some(l) => self.outranks(scores, l, d),
            };
            if scores[d] > 0 && after_last {
                match best {
                    None => {
                        best = Some(d);
                    },
                    Some(b) => {
                        if self.outranks(scores, d, b) {
                            proof {
                                assert forall|x: int|
                                    0 <= x < d + 1 && #[trigger] eligible(
                                        self.docs@,
                                        scores@,
                                        last,
                                        x,
                                    ) implies x == d || ranks_before(
                                    self.docs@,
                                    scores@,
                                    d as int,
                                    x,
                                ) by {
                                    lemma_rank_order(self.docs@, scores@, d as int, b as int, x);
                                }
                            }
                            best = Some(d);
                        } else {
                            proof {
                                lemma_rank_order(self.docs@, scores@, b as int, d as int, d as int);
                            }
                        }
                    },
                }
            }
            d += 1;
        }
        best
    }

    /// The verses that match a query, best first, `limit` at most. A verse
    /// matches if a term of the query occurs in it. A query without terms
    /// matches nothing.
    pub fn search(&self, query: &str, limit: usize) -> (hits: Vec<SearchHit>)
        requires
            self.wf(),
        ensures
            is_ranking(
                self.corpus(),
                terms_of(query@),
                limit as int,
                self.snippet_limit(),
                hit_views(hits@),
            ),
    {
        let q = terms(query);
        let scores = self.score_all(&q);
        let ghost corpus = self.docs@;
        let ghost qs = texts(q@);
        let ghost snip = self.snippet_limit as int;
        let mut hits: Vec<SearchHit> = Vec::new();
        let mut last: Option<usize> = None;
        let mut exhausted = false;
        while !exhausted && hits.len() < limit
            invariant
                corpus == self.docs@,
                qs == texts(q@),
                snip == self.snippet_limit as int,
                scores@ == relevances(corpus, qs),
                scores@.len() == corpus.len(),
                hits@.len() <= limit,
                last is None <==> hits@.len() == 0,
                last matches Some(l) ==> l < corpus.len() && hit_views(hits@).last().position == l,
                forall|k: int|
                    0 <= k < hits@.len() ==> {
                        &&& 0 <= (#[trigger] hit_views(hits@)[k]).position < corpus.len()
                        &&& hit_views(hits@)[k].score > 0
                        &&& hit_views(hits@)[k] == hit_of(
                            corpus,
                            qs,
                            snip,
                            hit_views(hits@)[k].position,
                        )
                    },
                forall|j: int, k: int|
                    0 <= j < k < hits@.len() ==> ranks_before(
                        corpus,
                        scores@,
                        (#[trigger] hit_views(hits@)[j]).position,
                        (#[trigger] hit_views(hits@)[k]).position,
                    ),
                forall|d: int|
                    0 <= d < corpus.len() && #[trigger] scores@[d] > 0 ==> holds_position(
                        hit_views(hits@),
                        d,
                    ) || (!exhausted && eligible(corpus, scores@, last, d)),
            decreases (limit - hits@.len()) + (if exhausted { 0int } else { 1int }),
        {
            match self.best_after(&scores, last) {
                None => {
                    exhausted = true;
                },
                Some(b) => {
                    let ghost before = hit_views(hits@);
                    let hit = SearchHit {
                        locator: self.docs[b].locator,
                        score: scores[b],
                        snippet: make_snippet(self.docs[b].text.as_str(), &q, self.snippet_limit),
                        position: b,
                    };
                    let ghost h = hit@;
                    hits.push(hit);
                    proof {
                        let after = hit_views(hits@);
                        assert(after =~= before.push(h));
                        assert(h == hit_of(corpus, qs, snip, b as int));
                        assert forall|j: int, k: int| 0 <= j < k < after.len() implies ranks_before(
                            corpus,
                            scores@,
                            (#[trigger] after[j]).position,
                            (#[trigger] after[k]).position,
                        ) by {
                            if k == after.len() - 1 {
                                let l = last->0 as int;
                                assert(before.last() == before[before.len() - 1]);
                                if j < before.len() - 1 {
                                    assert(ranks_before(
                                        corpus,
                                        scores@,
                                        before[j].position,
                                        before[before.len() - 1].position,
                                    ));
                                    lemma_rank_order(corpus, scores@, before[j].position, l, b as int);
                                }
                            } else {
                                assert(after[j] == before[j]);
                                assert(after[k] == before[k]);
                            }
                        }
                        assert forall|d: int|
                            0 <= d < corpus.len() && #[trigger] scores@[d] > 0 implies holds_position(
                            after,
                            d,
                        ) || eligible(corpus, scores@, Some(b), d) by {
                            if holds_position(before, d) {
                                let k = choose|k: int|
                                    0 <= k < before.len() && (#[trigger] before[k]).position == d;
                                assert(after[k].position == d);
                            } else if d == b {
                                assert(after[after.len() - 1].position == d);
                            } else {
                                assert(eligible(corpus, scores@, last, d));
                            }
                        }
                    }
                    last = Some(b);
                },
            }
        }
        proof {
            let hv = hit_views(hits@);
            assert forall|d: int| 0 <= d < corpus.len() && #[trigger] scores@[d] > 0 implies holds_position(
                hv,
                d,
            ) || (hv.len() == limit && all_rank_before(corpus, scores@, hv, d)) by {
                if !holds_position(hv, d) {
                    assert(eligible(corpus, scores@, last, d));
                    assert forall|k: int| 0 <= k < hv.len() implies ranks_before(
                        corpus,
                        scores@,
                        (#[trigger] hv[k]).position,
                        d,
                    ) by {
                        let l = last->0 as int;
                        assert(hv.last() == hv[hv.len() - 1]);
                        if k < hv.len() - 1 {
                            assert(ranks_before(
                                corpus,
                                scores@,
                                hv[k].position,
                                hv[hv.len() - 1].position,
                            ));
                            lemma_rank_order(corpus, scores@, hv[k].position, l, d);
                        }
                    }
                }
            }
        }
        hits
    }

    /// Search for a query that arrives as bytes. Bytes that are not UTF-8
    /// are no query, and are the one thing that search refuses; bytes that
    /// are get the answer that their text gets.
    pub fn search_bytes(&self, query: &[u8], limit: usize) -> (r: Result<
        Vec<SearchHit>,
        MalformedQuery,
    >)
        requires
            self.wf(),
        ensures
            match r {
                Ok(hits) => valid_utf8(query@) && is_ranking(
                    self.corpus(),
                    terms_of(decode_utf8(query@)),
                    limit as int,
                    self.snippet_limit(),
                    hit_views(hits@),
                ),
                Err(_) => !valid_utf8(query@),
            },
    {
        match text_of(query) {
            None => Err(MalformedQuery {}),
            Some(text) => {
                proof {
                    encode_utf8_decode_utf8(text@);
                }
                Ok(self.search(text, limit))
            },
        }
    }
}

} // verus!
