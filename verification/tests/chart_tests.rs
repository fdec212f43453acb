use xsplot::cache::XsCache;
use xsplot::chart::{y_axis_title, x_axis_title, plot_plan, heat_or_damage, AxisScaleState};

fn cache(entries: &[(&str, bool)]) -> XsCache {
    XsCache {
        energy_values: entries.iter().map(|_| vec!["1.0".to_string()]).collect(),
        cross_section_values: entries.iter().map(|_| vec!["2.0".to_string()]).collect(),
        checkbox_selected: entries.iter().map(|e| e.1).collect(),
        labels: entries.iter().map(|e| e.0.to_string()).collect(),
    }
}

#[test]
fn cross_section_only_title() {
    let c = cache(&[("U235 (n,gamma) ENDFB-8.0", true)]);
    assert_eq!(y_axis_title(&c), "Microscopic Cross Section [barns]");
}

#[test]
fn heating_only_title() {
    let c = cache(&[("U235 heat ENDFB-8.0", true)]);
    assert_eq!(y_axis_title(&c), "Heating Cross Section [eV-barn]");
}

#[test]
fn mixed_entries_get_the_combined_title() {
    let c = cache(&[("U235 (n,gamma) ENDFB-8.0", true), ("U235 heat ENDFB-8.0", true)]);
    assert_eq!(
        y_axis_title(&c),
        "Microscopic Cross Section [barns], Heating Cross Section [eV-barn]"
    );
}

#[test]
fn no_visible_entries_give_an_empty_title() {
    let c = cache(&[]);
    assert_eq!(y_axis_title(&c), "");
    let c = cache(&[("U235 (n,gamma) ENDFB-8.0", false)]);
    assert_eq!(y_axis_title(&c), "");
}

#[test]
fn damage_counts_as_a_heating_curve() {
    let c = cache(&[("Fe56 damage FENDL-3.2c", true)]);
    assert_eq!(y_axis_title(&c), "Heating Cross Section [eV-barn]");
    assert!(heat_or_damage(&"Fe56 damage FENDL-3.2c".to_string()));
    assert!(!heat_or_damage(&"Fe56 (n,2n) FENDL-3.2c".to_string()));
}

#[test]
fn x_axis_is_always_energy() {
    assert_eq!(x_axis_title(), "Energy [eV]");
}

#[test]
fn invisible_entries_are_omitted_from_the_traces() {
    let c = XsCache {
        energy_values: vec![
            vec!["1.0".to_string()],
            vec!["2.0".to_string()],
            vec!["3.0".to_string()],
        ],
        cross_section_values: vec![
            vec!["0.1".to_string()],
            vec!["0.2".to_string()],
            vec!["0.3".to_string()],
        ],
        checkbox_selected: vec![true, false, true],
        labels: vec!["a".to_string(), "b".to_string(), "c".to_string()],
    };
    let mut scales = AxisScaleState::new();
    assert!(scales.x_log && scales.y_log);
    scales.toggle_y();
    let p = plot_plan(&c, &scales);
    assert!(p.x_log);
    assert!(!p.y_log);
    assert_eq!(p.traces.len(), 2);
    assert_eq!(p.traces[0].label, "a");
    assert_eq!(p.traces[0].energy_values, vec!["1.0".to_string()]);
    assert_eq!(p.traces[1].label, "c");
    assert_eq!(p.traces[1].cross_section_values, vec!["0.3".to_string()]);
    assert_eq!(p.x_axis_title, "Energy [eV]");
    assert_eq!(p.y_axis_title, "Microscopic Cross Section [barns]");
}
