//! The filter engine: five independent per-field search terms, each matched
//! against the whole catalog in two passes. A field with a term first looks
//! for a case-insensitive exact match anywhere in the catalog; if one exists
//! the field narrows to exact equality, otherwise it falls back to a
//! case-insensitive prefix match. Numeric fields are compared through their
//! decimal representation. A record is kept when all five fields pass;
//! catalog order is preserved.

use vstd::prelude::*;
use crate::catalog::{CatalogRecord, RecordView, recs};
use crate::text::{lower, is_prefix, dec_int, eq_ci, starts_with_ci, i32_to_string};

verus! {

/// One of the five searchable fields of a record.
#[derive(Clone, Copy)]
pub enum Field {
    Element,
    Nucleons,
    Reaction,
    Mt,
    Library,
}

/// The five optional search terms, one per filterable field. `None` means
/// "no filter on this field".
pub struct SearchState {
    pub element: Option<String>,
    pub nucleons: Option<String>,
    pub reaction: Option<String>,
    pub mt: Option<String>,
    pub library: Option<String>,
}

/// The mathematical content of a search state.
pub struct SearchView {
    pub element: Option<Seq<char>>,
    pub nucleons: Option<Seq<char>>,
    pub reaction: Option<Seq<char>>,
    pub mt: Option<Seq<char>>,
    pub library: Option<Seq<char>>,
}

/// The view of one optional term.
pub open spec fn opt_chars(o: Option<String>) -> Option<Seq<char>> {
    match o {
        Some(s) => Some(s@),
        None => None,
    }
}

impl View for SearchState {
    type V = SearchView;

    open spec fn view(&self) -> SearchView {
        SearchView {
            element: opt_chars(self.element),
            nucleons: opt_chars(self.nucleons),
            reaction: opt_chars(self.reaction),
            mt: opt_chars(self.mt),
            library: opt_chars(self.library),
        }
    }
}

impl SearchState {
    /// A search state with no term on any field.
    pub fn new() -> (r: SearchState)
        ensures
            r@.element is None,
            r@.nucleons is None,
            r@.reaction is None,
            r@.mt is None,
            r@.library is None,
    {
        SearchState { element: None, nucleons: None, reaction: None, mt: None, library: None }
    }
}

/// Turns the raw text of a search box into a term: empty text clears the
/// filter, anything else is the term itself.
pub fn normalize_term(input: String) -> (r: Option<String>)
    ensures
        opt_chars(r) == if input@.len() == 0 {
            None::<Seq<char>>
        } else {
            Some(input@)
        },
{
    if input.as_str().unicode_len() == 0 {
        None
    } else {
        Some(input)
    }
}

/// The text a field is matched on: the field itself for string fields, the
/// decimal representation for numeric ones.
pub open spec fn field_chars(r: RecordView, f: Field) -> Seq<char> {
    match f {
        Field::Element => r.element,
        Field::Nucleons => dec_int(r.nucleons),
        Field::Reaction => r.reaction,
        Field::Mt => dec_int(r.mt),
        Field::Library => r.library,
    }
}

/// The search term for a field, if one is set.
pub open spec fn term_of(st: SearchView, f: Field) -> Option<Seq<char>> {
    match f {
        Field::Element => st.element,
        Field::Nucleons => st.nucleons,
        Field::Reaction => st.reaction,
        Field::Mt => st.mt,
        Field::Library => st.library,
    }
}

/// Some record of the catalog matches the term exactly (case-insensitively)
/// on this field.
pub open spec fn exact_match_exists(cat: Seq<RecordView>, f: Field, t: Seq<char>) -> bool {
    exists|i: int| 0 <= i < cat.len() && lower(field_chars(#[trigger] cat[i], f)) == lower(t)
}

/// How one field with a term matches once exactness is settled: exact
/// equality when an exact match exists somewhere, else a prefix match.
pub open spec fn one_field_passes(exact: bool, r: RecordView, t: Seq<char>, f: Field) -> bool {
    if exact {
        lower(field_chars(r, f)) == lower(t)
    } else {
        is_prefix(lower(t), lower(field_chars(r, f)))
    }
}

/// Whether a record passes one field's filter, exactness judged over the
/// whole catalog. A field without a term always passes.
pub open spec fn field_passes(cat: Seq<RecordView>, r: RecordView, st: SearchView, f: Field) -> bool {
    match term_of(st, f) {
        None => true,
        Some(t) => one_field_passes(exact_match_exists(cat, f, t), r, t, f),
    }
}

/// Whether a record passes the whole filter: all five fields pass.
pub open spec fn record_passes(cat: Seq<RecordView>, r: RecordView, st: SearchView) -> bool {
    field_passes(cat, r, st, Field::Element) && field_passes(cat, r, st, Field::Nucleons)
        && field_passes(cat, r, st, Field::Reaction) && field_passes(cat, r, st, Field::Mt)
        && field_passes(cat, r, st, Field::Library)
}

/// The filtered prefix: the records among the first `n` that pass the
/// filter, in catalog order.
pub open spec fn filter_upto(cat: Seq<RecordView>, st: SearchView, n: int) -> Seq<RecordView>
    decreases n,
{
    if n <= 0 {
        Seq::empty()
    } else {
        filter_upto(cat, st, n - 1) + if record_passes(cat, cat[n - 1], st) {
            seq![cat[n - 1]]
        } else {
            Seq::empty()
        }
    }
}

/// The filtered catalog: the records that pass the filter, in catalog order.
pub open spec fn filter_spec(cat: Seq<RecordView>, st: SearchView) -> Seq<RecordView> {
    filter_upto(cat, st, cat.len() as int)
}

/// Membership in the filtered prefix: exactly the records among the first
/// `n` that pass the filter.
pub proof fn lemma_filter_upto_membership(cat: Seq<RecordView>, st: SearchView, n: int)
    requires
        n <= cat.len(),
    ensures
        forall|x: RecordView|
            #[trigger] filter_upto(cat, st, n).contains(x) <==> exists|i: int|
                0 <= i < n && cat[i] == x && record_passes(cat, #[trigger] cat[i], st),
    decreases n,
{
    if n > 0 {
        lemma_filter_upto_membership(cat, st, n - 1);
        assert forall|x: RecordView| #[trigger] filter_upto(cat, st, n).contains(x) implies exists|
            i: int,
        | 0 <= i < n && cat[i] == x && record_passes(cat, #[trigger] cat[i], st) by {
            let prev = filter_upto(cat, st, n - 1);
            if prev.contains(x) {
            } else {
                assert(record_passes(cat, cat[n - 1], st) && cat[n - 1] == x);
            }
        }
        assert forall|x: RecordView|
            exists|i: int|
                0 <= i < n && cat[i] == x && record_passes(
                    cat,
                    #[trigger] cat[i],
                    st,
                ) implies #[trigger] filter_upto(cat, st, n).contains(x) by {
            let i = choose|i: int|
                0 <= i < n && cat[i] == x && record_passes(cat, #[trigger] cat[i], st);
            if i < n - 1 {
                assert(filter_upto(cat, st, n - 1).contains(x));
                let j = choose|j: int|
                    0 <= j < filter_upto(cat, st, n - 1).len() && #[trigger] filter_upto(
                        cat,
                        st,
                        n - 1,
                    )[j] == x;
                assert(filter_upto(cat, st, n)[j] == x);
            } else {
                let m = filter_upto(cat, st, n).len();
                assert(filter_upto(cat, st, n)[m - 1] == x);
            }
        }
    }
}

/// Membership in the filtered catalog: exactly the records that pass the
/// filter.
pub proof fn lemma_filter_membership(cat: Seq<RecordView>, st: SearchView)
    ensures
        forall|x: RecordView|
            #[trigger] filter_spec(cat, st).contains(x) <==> exists|i: int|
                0 <= i < cat.len() && cat[i] == x && record_passes(cat, #[trigger] cat[i], st),
{
    lemma_filter_upto_membership(cat, st, cat.len() as int);
}

/// A search state whose only term is `t`, on field `f`.
pub open spec fn single_term(st: SearchView, f: Field, t: Seq<char>) -> bool {
    term_of(st, f) == Some(t) && forall|g: Field| !equal_field(g, f) ==> #[trigger] term_of(
        st,
        g,
    ) is None
}

/// Field equality, spelled out so it can stand in specifications.
pub open spec fn equal_field(a: Field, b: Field) -> bool {
    match (a, b) {
        (Field::Element, Field::Element) => true,
        (Field::Nucleons, Field::Nucleons) => true,
        (Field::Reaction, Field::Reaction) => true,
        (Field::Mt, Field::Mt) => true,
        (Field::Library, Field::Library) => true,
        _ => false,
    }
}

/// Under a single-term search, the whole filter reduces to that field's
/// predicate.
pub proof fn lemma_record_passes_single(
    cat: Seq<RecordView>,
    st: SearchView,
    f: Field,
    t: Seq<char>,
    x: RecordView,
)
    requires
        single_term(st, f, t),
    ensures
        record_passes(cat, x, st) == one_field_passes(exact_match_exists(cat, f, t), x, t, f),
{
    assert(!equal_field(Field::Element, f) ==> term_of(st, Field::Element) is None);
    assert(!equal_field(Field::Nucleons, f) ==> term_of(st, Field::Nucleons) is None);
    assert(!equal_field(Field::Reaction, f) ==> term_of(st, Field::Reaction) is None);
    assert(!equal_field(Field::Mt, f) ==> term_of(st, Field::Mt) is None);
    assert(!equal_field(Field::Library, f) ==> term_of(st, Field::Library) is None);
}

/// Filter exactness precedence: when the catalog holds a record matching the
/// single search term exactly, filtering keeps exactly the records that
/// match it exactly — prefix-only matches are dropped.
pub proof fn lemma_filter_exact_precedence(
    cat: Seq<RecordView>,
    st: SearchView,
    f: Field,
    t: Seq<char>,
)
    requires
        single_term(st, f, t),
        exact_match_exists(cat, f, t),
    ensures
        forall|x: RecordView|
            #[trigger] filter_spec(cat, st).contains(x) <==> exists|i: int|
                0 <= i < cat.len() && #[trigger] cat[i] == x && lower(field_chars(x, f)) == lower(
                    t,
                ),
{
    lemma_filter_membership(cat, st);
    assert forall|x: RecordView| #[trigger]
        record_passes(cat, x, st) == (lower(field_chars(x, f)) == lower(t)) by {
        lemma_record_passes_single(cat, st, f, t, x);
    }
}

/// Filter prefix fallback: when no record matches the single search term
/// exactly, filtering keeps exactly the records whose field value starts
/// with the term (case-insensitively).
pub proof fn lemma_filter_prefix_fallback(
    cat: Seq<RecordView>,
    st: SearchView,
    f: Field,
    t: Seq<char>,
)
    requires
        single_term(st, f, t),
        !exact_match_exists(cat, f, t),
    ensures
        forall|x: RecordView|
            #[trigger] filter_spec(cat, st).contains(x) <==> exists|i: int|
                0 <= i < cat.len() && #[trigger] cat[i] == x && is_prefix(
                    lower(t),
                    lower(field_chars(x, f)),
                ),
{
    lemma_filter_membership(cat, st);
    assert forall|x: RecordView| #[trigger]
        record_passes(cat, x, st) == is_prefix(lower(t), lower(field_chars(x, f))) by {
        lemma_record_passes_single(cat, st, f, t, x);
    }
}

/// With no term on any field, filtering returns the whole catalog in
/// catalog order.
pub proof fn lemma_filter_no_terms(cat: Seq<RecordView>, st: SearchView)
    requires
        st.element is None,
        st.nucleons is None,
        st.reaction is None,
        st.mt is None,
        st.library is None,
    ensures
        filter_spec(cat, st) == cat,
{
    assert forall|n: int| 0 <= n <= cat.len() implies filter_upto(cat, st, n) =~= cat.take(
        n,
    ) by {
        lemma_filter_upto_take(cat, st, n);
    }
    assert(filter_spec(cat, st) =~= cat.take(cat.len() as int));
    assert(cat.take(cat.len() as int) =~= cat);
}

proof fn lemma_filter_upto_take(cat: Seq<RecordView>, st: SearchView, n: int)
    requires
        st.element is None,
        st.nucleons is None,
        st.reaction is None,
        st.mt is None,
        st.library is None,
        0 <= n <= cat.len(),
    ensures
        filter_upto(cat, st, n) =~= cat.take(n),
    decreases n,
{
    if n > 0 {
        lemma_filter_upto_take(cat, st, n - 1);
        assert(record_passes(cat, cat[n - 1], st));
        assert(filter_upto(cat, st, n) == filter_upto(cat, st, n - 1) + seq![cat[n - 1]]);
    }
}

/// The matched text of a field, materialized.
fn field_string(r: &CatalogRecord, f: Field) -> (s: String)
    ensures
        s@ == field_chars(r@, f),
{
    match f {
        Field::Element => r.element.clone(),
        Field::Nucleons => i32_to_string(r.nucleons),
        Field::Reaction => r.reaction.clone(),
        Field::Mt => i32_to_string(r.mt),
        Field::Library => r.library.clone(),
    }
}

/// First pass of the two-pass filter: does any record of the catalog match
/// the term exactly on this field?
fn has_exact(records: &Vec<CatalogRecord>, f: Field, t: &String) -> (b: bool)
    ensures
        b == exact_match_exists(recs(records@), f, t@),
{
    let n = records.len();
    let mut i: usize = 0;
    while i < n
        invariant
            n == records@.len(),
            i <= n,
            forall|j: int|
                0 <= j < i ==> lower(field_chars(#[trigger] recs(records@)[j], f)) != lower(t@),
        decreases n - i,
    {
        let s = field_string(&records[i], f);
        if eq_ci(s.as_str(), t.as_str()) {
            assert(lower(field_chars(recs(records@)[i as int], f)) == lower(t@));
            return true;
        }
        i += 1;
    }
    false
}

/// Second pass, one field of one record: the term check under settled
/// exactness.
fn field_ok(r: &CatalogRecord, f: Field, term: &Option<String>, exact: bool) -> (b: bool)
    ensures
        b == match opt_chars(*term) {
            None => true,
            Some(t) => one_field_passes(exact, r@, t, f),
        },
{
    match term {
        None => true,
        Some(t) => {
            let s = field_string(r, f);
            if exact {
                eq_ci(s.as_str(), t.as_str())
            } else {
                starts_with_ci(s.as_str(), t.as_str())
            }
        },
    }
}

/// Filters the catalog by the search state: a record is kept iff all five
/// fields pass, each field matching exactly when the catalog holds an exact
/// match for its term and by prefix otherwise. Catalog order is preserved.
pub fn filter_records(records: &Vec<CatalogRecord>, st: &SearchState) -> (res: Vec<CatalogRecord>)
    ensures
        recs(res@) == filter_spec(recs(records@), st@),
{
    let ghost cat = recs(records@);
    let ex_element = match &st.element {
        Some(t) => has_exact(records, Field::Element, t),
        None => false,
    };
    let ex_nucleons = match &st.nucleons {
        Some(t) => has_exact(records, Field::Nucleons, t),
        None => false,
    };
    let ex_reaction = match &st.reaction {
        Some(t) => has_exact(records, Field::Reaction, t),
        None => false,
    };
    let ex_mt = match &st.mt {
        Some(t) => has_exact(records, Field::Mt, t),
        None => false,
    };
    let ex_library = match &st.library {
        Some(t) => has_exact(records, Field::Library, t),
        None => false,
    };
    let n = records.len();
    let mut res: Vec<CatalogRecord> = Vec::new();
    let mut i: usize = 0;
    while i < n
        invariant
            n == records@.len(),
            i <= n,
            cat == recs(records@),
            st.element matches Some(t) ==> ex_element == exact_match_exists(cat, Field::Element, t@),
            st.nucleons matches Some(t) ==> ex_nucleons == exact_match_exists(
                cat,
                Field::Nucleons,
                t@,
            ),
            st.reaction matches Some(t) ==> ex_reaction == exact_match_exists(
                cat,
                Field::Reaction,
                t@,
            ),
            st.mt matches Some(t) ==> ex_mt == exact_match_exists(cat, Field::Mt, t@),
            st.library matches Some(t) ==> ex_library == exact_match_exists(cat, Field::Library, t@),
            recs(res@) == filter_upto(cat, st@, i as int),
        decreases n - i,
    {
        let r = &records[i];
        let ok = field_ok(r, Field::Element, &st.element, ex_element) && field_ok(
            r,
            Field::Nucleons,
            &st.nucleons,
            ex_nucleons,
        ) && field_ok(r, Field::Reaction, &st.reaction, ex_reaction) && field_ok(
            r,
            Field::Mt,
            &st.mt,
            ex_mt,
        ) && field_ok(r, Field::Library, &st.library, ex_library);
        proof {
            assert(cat[i as int] == r@);
            assert(ok == record_passes(cat, cat[i as int], st@));
        }
        if ok {
            res.push(r.clone());
            proof {
                assert(recs(res@) =~= filter_upto(cat, st@, i + 1));
            }
        } else {
            proof {
                assert(recs(res@) =~= filter_upto(cat, st@, i + 1));
            }
        }
        i += 1;
    }
    res
}

} // verus!
