use xsplot::selection::SelectionSet;

fn contents(s: &SelectionSet) -> Vec<i32> {
    let mut v = Vec::new();
    for i in 0..s.len() {
        v.push(s.get(i));
    }
    v
}

#[test]
fn toggle_selects_and_deselects() {
    let mut s = SelectionSet::new();
    assert_eq!(s.len(), 0);
    s.toggle(7);
    assert!(s.contains(7));
    assert_eq!(contents(&s), vec![7]);
    s.toggle(7);
    assert!(!s.contains(7));
    assert_eq!(s.len(), 0);
}

#[test]
fn toggling_twice_restores_the_set() {
    let mut s = SelectionSet::new();
    s.toggle(1);
    s.toggle(2);
    s.toggle(3);
    // Toggle an id in the middle twice: the same ids are selected afterwards.
    s.toggle(2);
    s.toggle(2);
    let mut after = contents(&s);
    after.sort();
    assert_eq!(after, vec![1, 2, 3]);
    // Toggle an unselected id twice: the selection is unchanged, order included.
    let before = contents(&s);
    s.toggle(99);
    s.toggle(99);
    assert_eq!(contents(&s), before);
}

#[test]
fn selection_keeps_insertion_order() {
    let mut s = SelectionSet::new();
    s.toggle(5);
    s.toggle(3);
    s.toggle(9);
    assert_eq!(contents(&s), vec![5, 3, 9]);
    s.toggle(3);
    assert_eq!(contents(&s), vec![5, 9]);
}

#[test]
fn clear_empties_the_selection() {
    let mut s = SelectionSet::new();
    s.toggle(1);
    s.toggle(2);
    s.clear();
    assert_eq!(s.len(), 0);
    assert!(!s.contains(1));
    assert!(!s.contains(2));
}
