use bestmatch::synthesis::{document_terms, query_terms, TermRecord};

fn found(term_id: u32, idf_bits: u32) -> Option<TermRecord> {
    Some(TermRecord { term_id, idf_bits })
}

#[test]
fn term_frequencies_count_the_lookups_that_found_each_term() {
    let lookups = vec![found(5, 0), found(2, 0), found(5, 0), None, found(5, 0), found(9, 0)];
    let terms = document_terms(&lookups);
    assert_eq!(terms.frequencies.entries(), vec![(2, &1), (5, &3), (9, &1)]);
    assert_eq!(terms.length, 5);
}

#[test]
fn document_length_leaves_out_what_was_not_found() {
    let lookups = vec![None, found(1, 0), None, None, found(1, 0), None];
    let terms = document_terms(&lookups);
    assert_eq!(terms.frequencies.entries(), vec![(1, &2)]);
    assert_eq!(terms.length, 2);
}

#[test]
fn document_length_is_the_sum_of_the_frequencies() {
    let lookups = vec![found(3, 0), found(1, 0), found(3, 0), None, found(2, 0), found(3, 0)];
    let terms = document_terms(&lookups);
    let mut sum: u64 = 0;
    for (_, count) in terms.frequencies.entries() {
        sum += *count;
    }
    assert_eq!(sum, terms.length);
    assert_eq!(sum, 5);
}

#[test]
fn nothing_found_gives_empty_vectors() {
    let none: Vec<Option<TermRecord>> = vec![None, None, None];
    let terms = document_terms(&none);
    assert!(terms.frequencies.is_empty());
    assert_eq!(terms.length, 0);
    assert!(query_terms(&none).is_empty());

    let empty: Vec<Option<TermRecord>> = vec![];
    let terms = document_terms(&empty);
    assert!(terms.frequencies.is_empty());
    assert_eq!(terms.length, 0);
    assert!(query_terms(&empty).is_empty());
}

#[test]
fn a_later_lookup_overwrites_an_earlier_one_in_a_query() {
    let lookups = vec![found(4, 100), found(1, 7), None, found(4, 200), found(4, 300)];
    let idfs = query_terms(&lookups);
    assert_eq!(idfs.entries(), vec![(1, &7), (4, &300)]);
}

#[test]
fn a_repeated_query_term_weighs_like_a_single_one() {
    let once = query_terms(&vec![found(8, 0x3F80_0000)]);
    let thrice = query_terms(&vec![found(8, 0x3F80_0000), found(8, 0x3F80_0000), found(8, 0x3F80_0000)]);
    assert_eq!(once.entries(), thrice.entries());
}

#[test]
fn dimensions_are_the_terms_that_were_found() {
    let lookups = vec![found(u32::MAX, 1), None, found(0, 2)];
    assert_eq!(document_terms(&lookups).frequencies.entries(), vec![(0, &1), (u32::MAX, &1)]);
    assert_eq!(query_terms(&lookups).entries(), vec![(0, &2), (u32::MAX, &1)]);
}
