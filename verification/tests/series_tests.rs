use xsplot::catalog::{Catalog, CatalogRecord};
use xsplot::selection::SelectionSet;
use xsplot::series::{dataset_key, record_label, base_url, fetch_plan, plan_fetches, ResolveError};

fn rec(id: i32, element: &str, nucleons: i32, reaction: &str, mt: i32, library: &str, temperature: &str) -> CatalogRecord {
    CatalogRecord {
        id,
        element: element.to_string(),
        nucleons,
        reaction: reaction.to_string(),
        mt,
        library: library.to_string(),
        temperature: temperature.to_string(),
    }
}

#[test]
fn dataset_key_derivation() {
    let r = rec(1, "U", 235, "(n,gamma)", 102, "ENDFB-8.0", "294");
    assert_eq!(dataset_key(&r), "U_235_ENDFB-8.0_n_102_294K");
}

#[test]
fn label_holds_nuclide_reaction_and_library() {
    let r = rec(1, "U", 235, "(n,gamma)", 102, "ENDFB-8.0", "294");
    assert_eq!(record_label(&r), "U235 (n,gamma) ENDFB-8.0");
}

#[test]
fn base_url_maps_each_supported_library() {
    assert_eq!(
        base_url(&"ENDFB-8.0".to_string()).unwrap(),
        "https://raw.githubusercontent.com/openmc-data-storage/ENDF-B-VIII.0-NNDC-json/refs/heads/main/json_files"
    );
    assert_eq!(
        base_url(&"FENDL-3.2c".to_string()).unwrap(),
        "https://raw.githubusercontent.com/openmc-data-storage/FENDL-3.2c-json/refs/heads/main/FENDL-3.2c_json"
    );
}

#[test]
fn unknown_library_is_the_unsupported_error() {
    match base_url(&"TENDL-2021".to_string()) {
        Err(ResolveError::UnsupportedLibrary { library }) => assert_eq!(library, "TENDL-2021"),
        _ => panic!("expected the unsupported-library error"),
    }
}

#[test]
fn fetch_plan_builds_the_full_url() {
    let cat = Catalog::new(vec![rec(1, "Fe", 56, "(n,2n)", 16, "FENDL-3.2c", "294")]).unwrap();
    let p = fetch_plan(&cat, 1).unwrap();
    assert_eq!(p.id, 1);
    assert_eq!(
        p.url,
        "https://raw.githubusercontent.com/openmc-data-storage/FENDL-3.2c-json/refs/heads/main/FENDL-3.2c_json/Fe_56_FENDL-3.2c_n_16_294K.json"
    );
    assert_eq!(p.label, "Fe56 (n,2n) FENDL-3.2c");
}

#[test]
fn missing_id_is_the_missing_entry_error() {
    let cat = Catalog::new(vec![rec(1, "Fe", 56, "(n,2n)", 16, "FENDL-3.2c", "294")]).unwrap();
    match fetch_plan(&cat, 42) {
        Err(ResolveError::MissingCatalogEntry { id }) => assert_eq!(id, 42),
        _ => panic!("expected the missing-entry error"),
    }
}

#[test]
fn unsupported_library_fails_the_fetch_plan() {
    let cat = Catalog::new(vec![rec(1, "Fe", 56, "(n,2n)", 16, "JEFF-3.3", "294")]).unwrap();
    match fetch_plan(&cat, 1) {
        Err(ResolveError::UnsupportedLibrary { library }) => assert_eq!(library, "JEFF-3.3"),
        _ => panic!("expected the unsupported-library error"),
    }
}

#[test]
fn plans_follow_selection_order() {
    let cat = Catalog::new(vec![
        rec(1, "U", 235, "(n,gamma)", 102, "ENDFB-8.0", "294"),
        rec(2, "Fe", 56, "(n,2n)", 16, "FENDL-3.2c", "294"),
    ])
    .unwrap();
    let mut sel = SelectionSet::new();
    sel.toggle(2);
    sel.toggle(1);
    let plans = plan_fetches(&cat, &sel).unwrap();
    assert_eq!(plans.len(), 2);
    assert_eq!(plans[0].id, 2);
    assert_eq!(plans[1].id, 1);
    assert_eq!(plans[0].label, "Fe56 (n,2n) FENDL-3.2c");
    assert_eq!(plans[1].label, "U235 (n,gamma) ENDFB-8.0");
}

#[test]
fn plan_fetches_fails_on_the_first_bad_id() {
    let cat = Catalog::new(vec![rec(1, "U", 235, "(n,gamma)", 102, "ENDFB-8.0", "294")]).unwrap();
    let mut sel = SelectionSet::new();
    sel.toggle(1);
    sel.toggle(5);
    match plan_fetches(&cat, &sel) {
        Err(ResolveError::MissingCatalogEntry { id }) => assert_eq!(id, 5),
        _ => panic!("expected the missing-entry error"),
    }
}

#[test]
fn duplicate_ids_are_refused_by_the_catalog() {
    let r1 = rec(1, "U", 235, "(n,gamma)", 102, "ENDFB-8.0", "294");
    let r2 = rec(1, "Fe", 56, "(n,2n)", 16, "ENDFB-8.0", "294");
    assert!(Catalog::new(vec![r1, r2]).is_none());
}
