use xsplot::catalog::CatalogRecord;
use xsplot::pagination::paginate;

fn rec(id: i32) -> CatalogRecord {
    CatalogRecord {
        id,
        element: "U".to_string(),
        nucleons: 235,
        reaction: "(n,gamma)".to_string(),
        mt: 102,
        library: "ENDFB-8.0".to_string(),
        temperature: "294".to_string(),
    }
}

fn ids(v: &[CatalogRecord]) -> Vec<i32> {
    v.iter().map(|r| r.id).collect()
}

#[test]
fn first_page_holds_the_first_records() {
    let list: Vec<CatalogRecord> = (0..25).map(rec).collect();
    let (page, items) = paginate(&list, 10, 0);
    assert_eq!(page, 0);
    assert_eq!(ids(&items), (0..10).collect::<Vec<i32>>());
}

#[test]
fn last_page_is_short() {
    let list: Vec<CatalogRecord> = (0..25).map(rec).collect();
    let (page, items) = paginate(&list, 10, 2);
    assert_eq!(page, 2);
    assert_eq!(ids(&items), (20..25).collect::<Vec<i32>>());
}

#[test]
fn requested_page_past_the_end_is_clamped() {
    let list: Vec<CatalogRecord> = (0..25).map(rec).collect();
    let (page, items) = paginate(&list, 10, 99);
    assert_eq!(page, 2);
    assert_eq!(ids(&items), (20..25).collect::<Vec<i32>>());
}

#[test]
fn empty_list_shows_page_zero_empty() {
    let list: Vec<CatalogRecord> = Vec::new();
    let (page, items) = paginate(&list, 10, 7);
    assert_eq!(page, 0);
    assert!(items.is_empty());
}

#[test]
fn exact_multiple_has_full_last_page() {
    let list: Vec<CatalogRecord> = (0..20).map(rec).collect();
    let (page, items) = paginate(&list, 10, 5);
    assert_eq!(page, 1);
    assert_eq!(ids(&items), (10..20).collect::<Vec<i32>>());
}

#[test]
fn clamp_keeps_page_window_inside_list() {
    // For several list sizes and page sizes, the clamped page's window
    // starts inside the list whenever the list is not empty.
    for n in 0..12usize {
        let list: Vec<CatalogRecord> = (0..n as i32).map(rec).collect();
        for p in 1..5usize {
            for req in 0..8usize {
                let (page, items) = paginate(&list, p, req);
                if n == 0 {
                    assert_eq!(page, 0);
                    assert!(items.is_empty());
                } else {
                    assert!(page * p < n);
                    assert!(!items.is_empty());
                }
            }
        }
    }
}

#[test]
fn concatenation_of_all_pages_reconstructs_the_list() {
    for n in 0..12usize {
        let list: Vec<CatalogRecord> = (0..n as i32).map(rec).collect();
        for p in 1..5usize {
            let pages = n.div_ceil(p);
            let mut all: Vec<i32> = Vec::new();
            for k in 0..pages {
                let (page, items) = paginate(&list, p, k);
                assert_eq!(page, k);
                all.extend(ids(&items));
            }
            assert_eq!(all, (0..n as i32).collect::<Vec<i32>>());
        }
    }
}
