use xsplot::catalog::CatalogRecord;
use xsplot::search::{filter_records, normalize_term, SearchState};

fn rec(id: i32, element: &str, nucleons: i32, reaction: &str, mt: i32, library: &str) -> CatalogRecord {
    CatalogRecord {
        id,
        element: element.to_string(),
        nucleons,
        reaction: reaction.to_string(),
        mt,
        library: library.to_string(),
        temperature: "294".to_string(),
    }
}

fn no_terms() -> SearchState {
    SearchState { element: None, nucleons: None, reaction: None, mt: None, library: None }
}

fn ids(v: &[CatalogRecord]) -> Vec<i32> {
    v.iter().map(|r| r.id).collect()
}

#[test]
fn no_terms_returns_whole_catalog_in_order() {
    let cat = vec![
        rec(1, "U", 235, "(n,gamma)", 102, "ENDFB-8.0"),
        rec(2, "Fe", 56, "(n,2n)", 16, "ENDFB-8.0"),
        rec(3, "Cl", 35, "(n,p)", 103, "FENDL-3.2c"),
    ];
    let out = filter_records(&cat, &no_terms());
    assert_eq!(ids(&out), vec![1, 2, 3]);
}

#[test]
fn empty_catalog_gives_empty_result() {
    let cat: Vec<CatalogRecord> = Vec::new();
    let st = SearchState { element: Some("u".to_string()), ..no_terms() };
    let out = filter_records(&cat, &st);
    assert!(out.is_empty());
}

#[test]
fn exact_match_takes_precedence_over_prefix_matches() {
    // "U" matches the term exactly; "Uuq" only by prefix: the exact match wins.
    let cat = vec![
        rec(1, "U", 235, "(n,gamma)", 102, "ENDFB-8.0"),
        rec(2, "Uuq", 289, "(n,gamma)", 102, "ENDFB-8.0"),
        rec(3, "Fe", 56, "(n,gamma)", 102, "ENDFB-8.0"),
    ];
    let st = SearchState { element: Some("u".to_string()), ..no_terms() };
    let out = filter_records(&cat, &st);
    assert_eq!(ids(&out), vec![1]);
}

#[test]
fn prefix_fallback_when_no_exact_match() {
    // No element equals "c": every element starting with it is kept.
    let cat = vec![
        rec(1, "Cl", 35, "(n,p)", 103, "ENDFB-8.0"),
        rec(2, "Cu", 63, "(n,gamma)", 102, "ENDFB-8.0"),
        rec(3, "Fe", 56, "(n,2n)", 16, "ENDFB-8.0"),
    ];
    let st = SearchState { element: Some("c".to_string()), ..no_terms() };
    let out = filter_records(&cat, &st);
    assert_eq!(ids(&out), vec![1, 2]);
}

#[test]
fn matching_is_case_insensitive() {
    let cat = vec![
        rec(1, "Fe", 56, "(n,2n)", 16, "ENDFB-8.0"),
        rec(2, "F", 19, "(n,gamma)", 102, "ENDFB-8.0"),
    ];
    let st = SearchState { element: Some("FE".to_string()), ..no_terms() };
    let out = filter_records(&cat, &st);
    assert_eq!(ids(&out), vec![1]);
}

#[test]
fn numeric_field_compares_as_decimal_string() {
    let cat = vec![
        rec(1, "U", 23, "(n,gamma)", 102, "ENDFB-8.0"),
        rec(2, "U", 235, "(n,gamma)", 102, "ENDFB-8.0"),
        rec(3, "U", 2, "(n,gamma)", 102, "ENDFB-8.0"),
    ];
    // "23" matches record 1 exactly: the prefix match on 235 is dropped.
    let st = SearchState { nucleons: Some("23".to_string()), ..no_terms() };
    assert_eq!(ids(&filter_records(&cat, &st)), vec![1]);
    // "2" matches record 3 exactly: only it stays.
    let st = SearchState { nucleons: Some("2".to_string()), ..no_terms() };
    assert_eq!(ids(&filter_records(&cat, &st)), vec![3]);
    // "23" with record 1 removed falls back to the prefix match on 235.
    let cat2 = vec![cat[1].clone(), cat[2].clone()];
    let st = SearchState { nucleons: Some("23".to_string()), ..no_terms() };
    assert_eq!(ids(&filter_records(&cat2, &st)), vec![2]);
}

#[test]
fn all_field_terms_must_pass() {
    let cat = vec![
        rec(1, "U", 235, "(n,gamma)", 102, "ENDFB-8.0"),
        rec(2, "U", 238, "(n,gamma)", 102, "ENDFB-8.0"),
        rec(3, "U", 235, "(n,2n)", 16, "ENDFB-8.0"),
    ];
    let st = SearchState {
        element: Some("u".to_string()),
        nucleons: Some("235".to_string()),
        reaction: Some("(n,gamma)".to_string()),
        mt: None,
        library: None,
    };
    assert_eq!(ids(&filter_records(&cat, &st)), vec![1]);
}

#[test]
fn mt_and_library_terms_filter() {
    let cat = vec![
        rec(1, "U", 235, "(n,gamma)", 102, "ENDFB-8.0"),
        rec(2, "U", 235, "(n,gamma)", 102, "FENDL-3.2c"),
        rec(3, "U", 235, "(n,2n)", 16, "FENDL-3.2c"),
    ];
    let st = SearchState { library: Some("fendl-3.2c".to_string()), ..no_terms() };
    assert_eq!(ids(&filter_records(&cat, &st)), vec![2, 3]);
    let st = SearchState { mt: Some("16".to_string()), ..no_terms() };
    assert_eq!(ids(&filter_records(&cat, &st)), vec![3]);
}

#[test]
fn normalize_term_clears_on_empty_input() {
    assert_eq!(normalize_term("".to_string()), None);
    assert_eq!(normalize_term("fe".to_string()), Some("fe".to_string()));
}
