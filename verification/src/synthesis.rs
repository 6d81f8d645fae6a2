use vstd::prelude::*;
use crate::formatter::{formatted, lemma_empty_vector_text, OutputDialect};
use crate::text::signed_decimal;
use crate::vector::{ascending_entries, entries_below, index_limit, SparseVector};

verus! {

/// What the term statistics hold for one token: the dimension that stands
/// for the term, and its inverse document frequency as the bit pattern of
/// a single-precision number. The engine hands the pattern on and never
/// looks inside it.
#[derive(Clone, Copy, Debug, PartialEq, Eq, Structural)]
pub struct TermRecord {
    pub term_id: u32,
    pub idf_bits: u32,
}

/// Whether a lookup found the term `id`.
pub open spec fn resolves_to(lookup: Option<TermRecord>, id: u32) -> bool {
    lookup matches Some(record) && record.term_id == id
}

/// How many of the lookups found the term `id`.
pub open spec fn occurrences(lookups: Seq<Option<TermRecord>>, id: u32) -> nat
    decreases lookups.len(),
{
    if lookups.len() == 0 {
        0
    } else {
        occurrences(lookups.drop_last(), id) + if resolves_to(lookups.last(), id) {
            1nat
        } else {
            0nat
        }
    }
}

/// How many of the lookups found a term at all.
pub open spec fn resolved(lookups: Seq<Option<TermRecord>>) -> nat
    decreases lookups.len(),
{
    if lookups.len() == 0 {
        0
    } else {
        resolved(lookups.drop_last()) + if lookups.last() is Some {
            1nat
        } else {
            0nat
        }
    }
}

/// The inverse document frequency that the last lookup of the term `id`
/// found; arbitrary where no lookup found the term.
pub open spec fn latest_idf(lookups: Seq<Option<TermRecord>>, id: u32) -> u32
    decreases lookups.len(),
{
    if lookups.len() == 0 {
        arbitrary()
    } else if resolves_to(lookups.last(), id) {
        lookups.last()->Some_0.idf_bits
    } else {
        latest_idf(lookups.drop_last(), id)
    }
}

/// The term frequencies of a document: for each term that a lookup found,
/// the number of lookups that found it. Lookups that found nothing count
/// for nothing.
pub open spec fn frequencies(lookups: Seq<Option<TermRecord>>) -> Map<u32, u64> {
    Map::new(|id: u32| occurrences(lookups, id) > 0, |id: u32| occurrences(lookups, id) as u64)
}

/// The inverse document frequencies of a query: for each term that a
/// lookup found, what the last such lookup found. A term looked up twice
/// weighs no more than a term looked up once.
pub open spec fn query_idfs(lookups: Seq<Option<TermRecord>>) -> Map<u32, u32> {
    Map::new(|id: u32| occurrences(lookups, id) > 0, |id: u32| latest_idf(lookups, id))
}

/// The sum of the weights of a sequence of entries.
pub open spec fn total(entries: Seq<(u32, u64)>) -> nat
    decreases entries.len(),
{
    if entries.len() == 0 {
        0
    } else {
        total(entries.drop_last()) + entries.last().1 as nat
    }
}

/// The term frequencies of a document, and its length: the number of its
/// tokens that the term statistics know.
pub struct DocumentTerms {
    pub frequencies: SparseVector<u64>,
    pub length: u64,
}

/// No term is found more often than there are lookups.
pub proof fn lemma_occurrences_bounded(lookups: Seq<Option<TermRecord>>, id: u32)
    ensures
        occurrences(lookups, id) <= resolved(lookups) <= lookups.len(),
    decreases lookups.len(),
{
    if lookups.len() > 0 {
        lemma_occurrences_bounded(lookups.drop_last(), id);
    }
}

/// Counts, for the lookups of a document's tokens in order, how often
/// each term was found, and how many lookups found a term.
pub fn document_terms(lookups: &Vec<Option<TermRecord>>) -> (r: DocumentTerms)
    ensures
        r.frequencies@ == frequencies(lookups@),
        r.length == resolved(lookups@),
{
    let mut counts: SparseVector<u64> = SparseVector::new();
    let mut length: u64 = 0;
    let mut i: usize = 0;
    proof {
        assert(counts@ =~= frequencies(lookups@.take(0)));
    }
    while i < lookups.len()
        invariant
            i <= lookups.len(),
            counts@ == frequencies(lookups@.take(i as int)),
            length == resolved(lookups@.take(i as int)),
        decreases lookups.len() - i,
    {
        let ghost seen = lookups@.take(i as int);
        let ghost next = lookups@.take(i + 1);
        proof {
            assert(next.drop_last() =~= seen);
            assert(next.last() == lookups@[i as int]);
        }
        match lookups[i] {
            Some(record) => {
                proof {
                    lemma_occurrences_bounded(seen, record.term_id);
                }
                let count: u64 = match counts.get(record.term_id) {
                    Some(n) => *n + 1,
                    None => 1,
                };
                counts.insert(record.term_id, count);
                length = length + 1;
                proof {
                    assert(counts@ =~= frequencies(next));
                }
            },
            None => {
                proof {
                    assert(counts@ =~= frequencies(next));
                }
            },
        }
        i += 1;
    }
    proof {
        assert(lookups@.take(i as int) =~= lookups@);
    }
    DocumentTerms { frequencies: counts, length }
}

/// Keeps, for the lookups of a query's tokens in order, the inverse
/// document frequency of each term that was found: where a term was found
/// more than once, that of the last lookup.
pub fn query_terms(lookups: &Vec<Option<TermRecord>>) -> (r: SparseVector<u32>)
    ensures
        r@ == query_idfs(lookups@),
{
    let mut idfs: SparseVector<u32> = SparseVector::new();
    let mut i: usize = 0;
    proof {
        assert(idfs@ =~= query_idfs(lookups@.take(0)));
    }
    while i < lookups.len()
        invariant
            i <= lookups.len(),
            idfs@ == query_idfs(lookups@.take(i as int)),
        decreases lookups.len() - i,
    {
        let ghost seen = lookups@.take(i as int);
        let ghost next = lookups@.take(i + 1);
        proof {
            assert(next.drop_last() =~= seen);
            assert(next.last() == lookups@[i as int]);
        }
        match lookups[i] {
            Some(record) => {
                idfs.insert(record.term_id, record.idf_bits);
            },
            None => {},
        }
        proof {
            assert(idfs@ =~= query_idfs(next));
        }
        i += 1;
    }
    proof {
        assert(lookups@.take(i as int) =~= lookups@);
    }
    idfs
}

/// A vector of either kind holds a dimension exactly where some lookup
/// found that term: what was not found contributes nothing.
pub proof fn lemma_dimensions_are_found_terms(lookups: Seq<Option<TermRecord>>, id: u32)
    ensures
        frequencies(lookups).contains_key(id) <==> exists|i: int|
            0 <= i < lookups.len() && resolves_to(#[trigger] lookups[i], id),
        query_idfs(lookups).contains_key(id) <==> frequencies(lookups).contains_key(id),
    decreases lookups.len(),
{
    if lookups.len() > 0 {
        let front = lookups.drop_last();
        lemma_dimensions_are_found_terms(front, id);
        if occurrences(lookups, id) > 0 {
            if resolves_to(lookups.last(), id) {
                assert(resolves_to(lookups[lookups.len() - 1], id));
            } else {
                let i = choose|i: int| 0 <= i < front.len() && resolves_to(#[trigger] front[i], id);
                assert(resolves_to(lookups[i], id));
            }
        }
        if exists|i: int| 0 <= i < lookups.len() && resolves_to(#[trigger] lookups[i], id) {
            let i = choose|i: int| 0 <= i < lookups.len() && resolves_to(#[trigger] lookups[i], id);
            if i < front.len() {
                assert(resolves_to(front[i], id));
            }
        }
    }
}

/// Where no lookup found a term, both kinds of vector are empty.
pub proof fn lemma_nothing_found(lookups: Seq<Option<TermRecord>>)
    requires
        forall|i: int| 0 <= i < lookups.len() ==> lookups[i] is None,
    ensures
        frequencies(lookups) == Map::<u32, u64>::empty(),
        query_idfs(lookups) == Map::<u32, u32>::empty(),
{
    assert forall|id: u32| !frequencies(lookups).contains_key(id) by {
        lemma_dimensions_are_found_terms(lookups, id);
    }
    assert(frequencies(lookups) =~= Map::<u32, u64>::empty());
    assert(query_idfs(lookups) =~= Map::<u32, u32>::empty());
}

/// Where no lookup found a term, a vector over the dimensions of either
/// kind renders as empty braces, a slash and the dimensionality, in every
/// dialect.
pub proof fn lemma_nothing_found_renders_empty(
    lookups: Seq<Option<TermRecord>>,
    weights: Map<u32, String>,
    dims: int,
    dialect: OutputDialect,
)
    requires
        forall|i: int| 0 <= i < lookups.len() ==> lookups[i] is None,
        weights.dom() == frequencies(lookups).dom() || weights.dom() == query_idfs(lookups).dom(),
    ensures
        formatted(weights, dims, dialect) == seq!['{', '}', '/'] + signed_decimal(dims),
{
    lemma_nothing_found(lookups);
    assert(weights =~= Map::<u32, String>::empty());
    lemma_empty_vector_text(dims, dialect);
}

/// A query holds for a term what the last lookup of that term found:
/// a later lookup overwrites an earlier one.
pub proof fn lemma_last_lookup_wins(lookups: Seq<Option<TermRecord>>, i: int)
    requires
        0 <= i < lookups.len(),
        lookups[i] is Some,
        forall|j: int| i < j < lookups.len() ==> !resolves_to(lookups[j], lookups[i]->Some_0.term_id),
    ensures
        query_idfs(lookups).contains_key(lookups[i]->Some_0.term_id),
        query_idfs(lookups)[lookups[i]->Some_0.term_id] == lookups[i]->Some_0.idf_bits,
    decreases lookups.len(),
{
    let id = lookups[i]->Some_0.term_id;
    lemma_dimensions_are_found_terms(lookups, id);
    assert(resolves_to(lookups[i], id));
    if i < lookups.len() - 1 {
        let front = lookups.drop_last();
        assert(!resolves_to(lookups[lookups.len() - 1], id));
        assert(front[i] == lookups[i]);
        assert forall|j: int| i < j < front.len() implies !resolves_to(front[j], id) by {
            assert(front[j] == lookups[j]);
        }
        lemma_last_lookup_wins(front, i);
    }
}

/// What setting one weight does to the sum of the weights below a bound.
proof fn lemma_total_after_insert(m: Map<u32, u64>, index: u32, weight: u64, bound: nat)
    requires
        bound <= index_limit(),
    ensures
        total(entries_below(m.insert(index, weight), bound)) + (if index < bound && m.contains_key(
            index,
        ) {
            m[index] as nat
        } else {
            0nat
        }) == total(entries_below(m, bound)) + (if index < bound {
            weight as nat
        } else {
            0nat
        }),
    decreases bound,
{
    if bound > 0 {
        let at = (bound - 1) as u32;
        let after = m.insert(index, weight);
        lemma_total_after_insert(m, index, weight, (bound - 1) as nat);
        let lower = entries_below(m, (bound - 1) as nat);
        let lower_after = entries_below(after, (bound - 1) as nat);
        if m.contains_key(at) {
            assert(entries_below(m, bound).drop_last() =~= lower);
        }
        if after.contains_key(at) {
            assert(entries_below(after, bound).drop_last() =~= lower_after);
        }
    }
}

/// The length of a document is the sum of its term frequencies.
pub proof fn lemma_length_is_total_frequency(lookups: Seq<Option<TermRecord>>)
    requires
        lookups.len() <= u64::MAX,
    ensures
        total(ascending_entries(frequencies(lookups))) == resolved(lookups),
    decreases lookups.len(),
{
    if lookups.len() == 0 {
        lemma_nothing_found(lookups);
        crate::vector::lemma_ascending_entries_enumerate(Map::<u32, u64>::empty());
        let entries = ascending_entries(Map::<u32, u64>::empty());
        if entries.len() > 0 {
            assert(Map::<u32, u64>::empty().contains_key(entries[0].0));
        }
    } else {
        let front = lookups.drop_last();
        lemma_length_is_total_frequency(front);
        match lookups.last() {
            Some(record) => {
                let id = record.term_id;
                let before = frequencies(front);
                lemma_occurrences_bounded(lookups, id);
                let count = occurrences(lookups, id) as u64;
                assert(frequencies(lookups) =~= before.insert(id, count));
                lemma_total_after_insert(before, id, count, index_limit());
            },
            None => {
                assert(frequencies(lookups) =~= frequencies(front));
            },
        }
    }
}

} // verus!
