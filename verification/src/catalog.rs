//! The catalog of nuclear reaction records: one immutable list, loaded once,
//! with ids unique across the catalog.

use vstd::prelude::*;

verus! {

/// The mathematical content of one catalog record.
pub struct RecordView {
    pub id: int,
    pub element: Seq<char>,
    pub nucleons: int,
    pub reaction: Seq<char>,
    pub mt: int,
    pub library: Seq<char>,
    pub temperature: Seq<char>,
}

/// One catalog entry: a reaction of one nuclide in one reference library,
/// tabulated at one temperature.
pub struct CatalogRecord {
    pub id: i32,
    pub element: String,
    pub nucleons: i32,
    pub reaction: String,
    pub mt: i32,
    pub library: String,
    pub temperature: String,
}

impl View for CatalogRecord {
    type V = RecordView;

    open spec fn view(&self) -> RecordView {
        RecordView {
            id: self.id as int,
            element: self.element@,
            nucleons: self.nucleons as int,
            reaction: self.reaction@,
            mt: self.mt as int,
            library: self.library@,
            temperature: self.temperature@,
        }
    }
}

impl Clone for CatalogRecord {
    fn clone(&self) -> (r: Self)
        ensures
            r@ == self@,
    {
        CatalogRecord {
            id: self.id,
            element: self.element.clone(),
            nucleons: self.nucleons,
            reaction: self.reaction.clone(),
            mt: self.mt,
            library: self.library.clone(),
            temperature: self.temperature.clone(),
        }
    }
}

/// The views of a sequence of records.
pub open spec fn recs(s: Seq<CatalogRecord>) -> Seq<RecordView> {
    Seq::new(s.len(), |i: int| s[i]@)
}

/// No two records share an id.
pub open spec fn ids_unique(cat: Seq<RecordView>) -> bool {
    forall|i: int, j: int|
        0 <= i < j < cat.len() ==> #[trigger] cat[i].id != #[trigger] cat[j].id
}

/// The index of the first record with the given id at or after position `i`.
pub open spec fn find_from(cat: Seq<RecordView>, id: int, i: int) -> Option<int>
    decreases cat.len() - i,
{
    if i < 0 || i >= cat.len() {
        None
    } else if cat[i].id == id {
        Some(i)
    } else {
        find_from(cat, id, i + 1)
    }
}

/// The index of the first record with the given id, if any.
pub open spec fn find_by_id(cat: Seq<RecordView>, id: int) -> Option<int> {
    find_from(cat, id, 0)
}

/// What `find_from` returns: the first index at or after `i` whose record
/// has the id, or nothing when no record from `i` on has it.
pub proof fn lemma_find_from(cat: Seq<RecordView>, id: int, i: int)
    requires
        0 <= i <= cat.len(),
    ensures
        match find_from(cat, id, i) {
            Some(k) => i <= k < cat.len() && cat[k].id == id && forall|j: int|
                i <= j < k ==> #[trigger] cat[j].id != id,
            None => forall|j: int| i <= j < cat.len() ==> #[trigger] cat[j].id != id,
        },
    decreases cat.len() - i,
{
    if i < cat.len() && cat[i].id != id {
        lemma_find_from(cat, id, i + 1);
    }
}

/// Finds the first record with the given id.
pub fn lookup_by_id(records: &Vec<CatalogRecord>, id: i32) -> (r: Option<usize>)
    ensures
        r == match find_by_id(recs(records@), id as int) {
            Some(i) => Some(i as usize),
            None => None::<usize>,
        },
{
    let n = records.len();
    let mut i: usize = 0;
    while i < n
        invariant
            n == records@.len(),
            i <= n,
            find_by_id(recs(records@), id as int) == find_from(recs(records@), id as int, i as int),
        decreases n - i,
    {
        if records[i].id == id {
            return Some(i);
        }
        i += 1;
    }
    None
}

/// The loaded catalog: a record list whose ids are unique. It is never
/// mutated after construction.
pub struct Catalog {
    records: Vec<CatalogRecord>,
}

impl View for Catalog {
    type V = Seq<RecordView>;

    closed spec fn view(&self) -> Seq<RecordView> {
        recs(self.records@)
    }
}

impl Catalog {
    /// Builds a catalog from a record list, refusing one with a repeated id.
    pub fn new(records: Vec<CatalogRecord>) -> (r: Option<Catalog>)
        ensures
            match r {
                Some(c) => c@ == recs(records@) && ids_unique(c@),
                None => !ids_unique(recs(records@)),
            },
    {
        let n = records.len();
        let mut i: usize = 0;
        while i < n
            invariant
                n == records@.len(),
                i <= n,
                forall|p: int, q: int|
                    0 <= p < q < i ==> #[trigger] recs(records@)[p].id != #[trigger] recs(
                        records@,
                    )[q].id,
            decreases n - i,
        {
            let mut j: usize = 0;
            while j < i
                invariant
                    n == records@.len(),
                    i < n,
                    j <= i,
                    forall|q: int| 0 <= q < j ==> #[trigger] recs(records@)[q].id != recs(
                        records@,
                    )[i as int].id,
                decreases i - j,
            {
                if records[j].id == records[i].id {
                    assert(!ids_unique(recs(records@))) by {
                        assert(recs(records@)[j as int].id == recs(records@)[i as int].id);
                    }
                    return None;
                }
                j += 1;
            }
            i += 1;
        }
        Some(Catalog { records })
    }

    /// How many records the catalog holds.
    pub fn len(&self) -> (r: usize)
        ensures
            r == self@.len(),
    {
        self.records.len()
    }

    /// The record list.
    pub fn records(&self) -> (r: &Vec<CatalogRecord>)
        ensures
            recs(r@) == self@,
    {
        &self.records
    }

    /// Finds the record with the given id.
    pub fn lookup(&self, id: i32) -> (r: Option<&CatalogRecord>)
        ensures
            r matches Some(rec) ==> find_by_id(self@, id as int) matches Some(i) && rec@ == self@[i],
            r is None ==> find_by_id(self@, id as int) is None,
    {
        let n = self.records.len();
        proof {
            assert(self@.len() == n);
            lemma_find_from(self@, id as int, 0);
        }
        match lookup_by_id(&self.records, id) {
            Some(i) => {
                assert(recs(self.records@)[i as int] == self.records@[i as int]@);
                Some(&self.records[i])
            },
            None => None,
        }
    }
}

} // verus!
