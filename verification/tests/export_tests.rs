use xsplot::cache::{XsCache, SeriesData, assemble_cache};
use xsplot::export::{export_json, export_file_name};
use xsplot::catalog::{Catalog, CatalogRecord};
use xsplot::selection::SelectionSet;
use xsplot::series::plan_fetches;

fn toks(v: &[&str]) -> Vec<String> {
    v.iter().map(|s| s.to_string()).collect()
}

#[test]
fn export_has_the_schema_and_no_visibility_field() {
    let c = XsCache {
        energy_values: vec![toks(&["1.0", "2.0", "3.0"]), toks(&["4.0", "5.0", "6.0"])],
        cross_section_values: vec![toks(&["0.1", "0.2", "0.3"]), toks(&["0.4", "0.5", "0.6"])],
        checkbox_selected: vec![true, false],
        labels: vec!["U235 (n,gamma) ENDFB-8.0".to_string(), "Fe56 heat FENDL-3.2c".to_string()],
    };
    let out = export_json(&c);
    assert!(out.contains("\"energy_values\""));
    assert!(out.contains("\"cross_section_values\""));
    assert!(out.contains("\"labels\""));
    assert!(!out.contains("checkbox_selected"));
    assert!(!out.contains("checkbox"));
    let expected = "{\n  \"energy_values\": [\n    [\n      1.0,\n      2.0,\n      3.0\n    ],\n    [\n      4.0,\n      5.0,\n      6.0\n    ]\n  ],\n  \"cross_section_values\": [\n    [\n      0.1,\n      0.2,\n      0.3\n    ],\n    [\n      0.4,\n      0.5,\n      0.6\n    ]\n  ],\n  \"labels\": [\n    \"U235 (n,gamma) ENDFB-8.0\",\n    \"Fe56 heat FENDL-3.2c\"\n  ]\n}";
    assert_eq!(out, expected);
}

#[test]
fn empty_cache_exports_empty_arrays() {
    let c = XsCache {
        energy_values: vec![],
        cross_section_values: vec![],
        checkbox_selected: vec![],
        labels: vec![],
    };
    assert_eq!(
        export_json(&c),
        "{\n  \"energy_values\": [],\n  \"cross_section_values\": [],\n  \"labels\": []\n}"
    );
}

#[test]
fn labels_are_escaped_for_json() {
    let c = XsCache {
        energy_values: vec![toks(&["1.0"])],
        cross_section_values: vec![toks(&["2.0"])],
        checkbox_selected: vec![true],
        labels: vec!["a\"b\\c\nd".to_string()],
    };
    let out = export_json(&c);
    assert!(out.contains("\"a\\\"b\\\\c\\u000ad\""));
}

#[test]
fn export_file_name_is_fixed() {
    assert_eq!(export_file_name(), "cross_sections_from_xsplot.json");
}

#[test]
fn assembled_cache_exports_per_selection_entry() {
    let cat = Catalog::new(vec![
        CatalogRecord {
            id: 1,
            element: "U".to_string(),
            nucleons: 235,
            reaction: "(n,gamma)".to_string(),
            mt: 102,
            library: "ENDFB-8.0".to_string(),
            temperature: "294".to_string(),
        },
        CatalogRecord {
            id: 2,
            element: "Fe".to_string(),
            nucleons: 56,
            reaction: "(n,2n)".to_string(),
            mt: 16,
            library: "FENDL-3.2c".to_string(),
            temperature: "294".to_string(),
        },
    ])
    .unwrap();
    let mut sel = SelectionSet::new();
    sel.toggle(1);
    sel.toggle(2);
    let plans = plan_fetches(&cat, &sel).unwrap();
    let series = vec![
        SeriesData { energy_values: toks(&["1.0", "2.0", "3.0"]), cross_section_values: toks(&["0.1", "0.2", "0.3"]) },
        SeriesData { energy_values: toks(&["4.0", "5.0", "6.0"]), cross_section_values: toks(&["0.4", "0.5", "0.6"]) },
    ];
    let cache = assemble_cache(&plans, &series);
    assert_eq!(cache.labels, vec!["U235 (n,gamma) ENDFB-8.0", "Fe56 (n,2n) FENDL-3.2c"]);
    assert_eq!(cache.checkbox_selected, vec![true, true]);
    assert_eq!(cache.energy_values[1], toks(&["4.0", "5.0", "6.0"]));
    let out = export_json(&cache);
    assert!(out.contains("U235 (n,gamma) ENDFB-8.0"));
    assert!(!out.contains("checkbox"));
}
