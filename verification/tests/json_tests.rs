use xsplot::json::{decode_reaction_data, check_number, DecodeError};

#[test]
fn decodes_the_expected_document_shape() {
    let s = "{\"energy\": [1.0, 2.5e3, 3e-2], \"cross section\": [0.1, 0.2, 0.3]}";
    let d = decode_reaction_data(s).unwrap();
    assert_eq!(d.energy_values, vec!["1.0", "2.5e3", "3e-2"]);
    assert_eq!(d.cross_section_values, vec!["0.1", "0.2", "0.3"]);
}

#[test]
fn keys_may_come_in_either_order() {
    let s = "{\"cross section\": [0.5], \"energy\": [125.0]}";
    let d = decode_reaction_data(s).unwrap();
    assert_eq!(d.energy_values, vec!["125.0"]);
    assert_eq!(d.cross_section_values, vec!["0.5"]);
}

#[test]
fn whitespace_is_tolerated() {
    let s = "  {\n  \"energy\" : [ 1 , 2 ] ,\n  \"cross section\" : [ 3 , 4 ]\n}  ";
    let d = decode_reaction_data(s).unwrap();
    assert_eq!(d.energy_values, vec!["1", "2"]);
    assert_eq!(d.cross_section_values, vec!["3", "4"]);
}

#[test]
fn empty_arrays_decode() {
    let s = "{\"energy\": [], \"cross section\": []}";
    let d = decode_reaction_data(s).unwrap();
    assert!(d.energy_values.is_empty());
    assert!(d.cross_section_values.is_empty());
}

#[test]
fn malformed_documents_are_refused() {
    for s in [
        "",
        "null",
        "[1.0]",
        "{\"energy\": [1.0]}",
        "{\"energy\": [1.0], \"cross section\": [2.0]",
        "{\"energy\": [1.0], \"wrong\": [2.0]}",
        "{\"energy\": [1.0], \"energy\": [2.0]}",
        "{\"energy\": [1.0,], \"cross section\": [2.0]}",
        "{\"energy\": [--1], \"cross section\": [2.0]}",
        "{\"energy\": [1.0] \"cross section\": [2.0]}",
        "{\"energy\": [1.0], \"cross section\": [2.0]} trailing",
    ] {
        assert!(
            matches!(decode_reaction_data(s), Err(DecodeError::Malformed)),
            "accepted: {s}"
        );
    }
}

#[test]
fn misaligned_series_are_refused() {
    let s = "{\"energy\": [1.0, 2.0], \"cross section\": [0.1]}";
    assert!(matches!(decode_reaction_data(s), Err(DecodeError::MisalignedSeries)));
}

#[test]
fn number_shapes() {
    for good in ["0", "-0", "7", "235", "1.0", "-12.75", "2.5e3", "3E-2", "1e+10", "0.001"] {
        assert!(check_number(good), "rejected: {good}");
    }
    for bad in ["", "-", "+1", "01", "1.", ".5", "1e", "1e+", "--1", "1.2.3", "nan", "2f"] {
        assert!(!check_number(bad), "accepted: {bad}");
    }
}
