//! Resolving the selected ids to fetchable datasets: each selected id is
//! looked up in the catalog, given a dataset key, a fetch URL under its
//! library's base location, and a display label. The network fetch itself is
//! a collaborator's job; this module decides exactly what to fetch and how
//! each outcome is labelled, and with which error a resolve fails.

use vstd::prelude::*;
use crate::catalog::{Catalog, CatalogRecord, RecordView, find_by_id};
use crate::selection::SelectionSet;
use crate::text::{dec_int, i32_to_string};

verus! {

/// Why resolving a selected id fails: the id is absent from the catalog (a
/// programming-invariant violation, since ids only enter the selection from
/// displayed rows), or the record's library has no known base location.
#[derive(Debug)]
pub enum ResolveError {
    MissingCatalogEntry { id: i32 },
    UnsupportedLibrary { library: String },
}

/// The mathematical content of a resolve error.
pub enum ResolveErrorView {
    MissingCatalogEntry { id: int },
    UnsupportedLibrary { library: Seq<char> },
}

impl View for ResolveError {
    type V = ResolveErrorView;

    open spec fn view(&self) -> ResolveErrorView {
        match self {
            ResolveError::MissingCatalogEntry { id } => ResolveErrorView::MissingCatalogEntry {
                id: *id as int,
            },
            ResolveError::UnsupportedLibrary { library } => ResolveErrorView::UnsupportedLibrary {
                library: library@,
            },
        }
    }
}

/// The dataset key of a record:
/// `{element}_{nucleons}_{library}_n_{mt}_{temperature}K`, the particle
/// fixed to neutron.
pub open spec fn key_chars(r: RecordView) -> Seq<char> {
    r.element + "_"@ + dec_int(r.nucleons) + "_"@ + r.library + "_n_"@ + dec_int(r.mt) + "_"@
        + r.temperature + "K"@
}

/// The display label of a record: `{element}{nucleons} {reaction} {library}`.
pub open spec fn label_chars(r: RecordView) -> Seq<char> {
    r.element + dec_int(r.nucleons) + " "@ + r.reaction + " "@ + r.library
}

/// The libraries with a known base location.
pub open spec fn supported_library(lib: Seq<char>) -> bool {
    lib == "ENDFB-8.0"@ || lib == "FENDL-3.2c"@
}

/// The base location of a library's datasets.
pub open spec fn base_url_chars(lib: Seq<char>) -> Seq<char>
    recommends
        supported_library(lib),
{
    if lib == "ENDFB-8.0"@ {
        "https://raw.githubusercontent.com/openmc-data-storage/ENDF-B-VIII.0-NNDC-json/refs/heads/main/json_files"@
    } else {
        "https://raw.githubusercontent.com/openmc-data-storage/FENDL-3.2c-json/refs/heads/main/FENDL-3.2c_json"@
    }
}

/// The URL a record's series is fetched from: `{base}/{key}.json`.
pub open spec fn url_chars(r: RecordView) -> Seq<char>
    recommends
        supported_library(r.library),
{
    base_url_chars(r.library) + "/"@ + key_chars(r) + ".json"@
}

/// Everything needed to fetch and label one selected record's series.
pub struct FetchPlan {
    pub id: i32,
    pub url: String,
    pub label: String,
}

/// The mathematical content of a fetch plan.
pub struct FetchPlanView {
    pub id: int,
    pub url: Seq<char>,
    pub label: Seq<char>,
}

impl View for FetchPlan {
    type V = FetchPlanView;

    open spec fn view(&self) -> FetchPlanView {
        FetchPlanView { id: self.id as int, url: self.url@, label: self.label@ }
    }
}

/// The plan a resolvable id gets.
pub open spec fn resolved_plan(cat: Seq<RecordView>, id: int) -> FetchPlanView {
    match find_by_id(cat, id) {
        Some(i) => FetchPlanView { id: id, url: url_chars(cat[i]), label: label_chars(cat[i]) },
        None => arbitrary(),
    }
}

/// How resolving one id fails, if it does.
pub open spec fn id_failure(cat: Seq<RecordView>, id: int) -> Option<ResolveErrorView> {
    match find_by_id(cat, id) {
        None => Some(ResolveErrorView::MissingCatalogEntry { id }),
        Some(i) => if !supported_library(cat[i].library) {
            Some(ResolveErrorView::UnsupportedLibrary { library: cat[i].library })
        } else {
            None
        },
    }
}

/// Derives the dataset key of a record.
pub fn dataset_key(r: &CatalogRecord) -> (k: String)
    ensures
        k@ == key_chars(r@),
{
    let mut k = r.element.clone();
    k.append("_");
    k.append(i32_to_string(r.nucleons).as_str());
    k.append("_");
    k.append(r.library.as_str());
    k.append("_n_");
    k.append(i32_to_string(r.mt).as_str());
    k.append("_");
    k.append(r.temperature.as_str());
    k.append("K");
    proof {
        assert(k@ =~= key_chars(r@));
    }
    k
}

/// Builds the display label of a record.
pub fn record_label(r: &CatalogRecord) -> (l: String)
    ensures
        l@ == label_chars(r@),
{
    let mut l = r.element.clone();
    l.append(i32_to_string(r.nucleons).as_str());
    l.append(" ");
    l.append(r.reaction.as_str());
    l.append(" ");
    l.append(r.library.as_str());
    proof {
        assert(l@ =~= label_chars(r@));
    }
    l
}

/// The base URL of a record's library, or the unsupported-library error.
pub fn base_url(library: &String) -> (r: Result<&'static str, ResolveError>)
    ensures
        match r {
            Ok(b) => supported_library(library@) && b@ == base_url_chars(library@),
            Err(e) => !supported_library(library@) && e@ == (ResolveErrorView::UnsupportedLibrary {
                library: library@,
            }),
        },
{
    let endfb = String::from_str("ENDFB-8.0");
    let fendl = String::from_str("FENDL-3.2c");
    if library.eq(&endfb) {
        Ok(
            "https://raw.githubusercontent.com/openmc-data-storage/ENDF-B-VIII.0-NNDC-json/refs/heads/main/json_files",
        )
    } else if library.eq(&fendl) {
        Ok(
            "https://raw.githubusercontent.com/openmc-data-storage/FENDL-3.2c-json/refs/heads/main/FENDL-3.2c_json",
        )
    } else {
        Err(ResolveError::UnsupportedLibrary { library: library.clone() })
    }
}

/// Resolves one selected id to its fetch plan: the catalog record is looked
/// up, keyed, and labelled; a missing id or an unmapped library is the
/// corresponding error.
pub fn fetch_plan(catalog: &Catalog, id: i32) -> (r: Result<FetchPlan, ResolveError>)
    ensures
        match r {
            Ok(p) => id_failure(catalog@, id as int) is None && p@ == resolved_plan(
                catalog@,
                id as int,
            ),
            Err(e) => id_failure(catalog@, id as int) == Some(e@),
        },
{
    match catalog.lookup(id) {
        None => Err(ResolveError::MissingCatalogEntry { id }),
        Some(rec) => {
            match base_url(&rec.library) {
                Err(e) => Err(e),
                Ok(base) => {
                    let mut url = String::from_str(base);
                    url.append("/");
                    url.append(dataset_key(rec).as_str());
                    url.append(".json");
                    proof {
                        assert(url@ =~= url_chars(rec@));
                    }
                    Ok(FetchPlan { id, url, label: record_label(rec) })
                },
            }
        },
    }
}

/// Resolves the whole selection, in selection order, stopping at the first
/// id that fails: on success one plan per selected id, in order.
pub fn plan_fetches(catalog: &Catalog, sel: &SelectionSet) -> (r: Result<
    Vec<FetchPlan>,
    ResolveError,
>)
    ensures
        match r {
            Ok(plans) => plans@.len() == sel@.len() && forall|k: int|
                0 <= k < sel@.len() ==> #[trigger] id_failure(catalog@, sel@[k] as int) is None
                    && plans@[k]@ == resolved_plan(catalog@, sel@[k] as int),
            Err(e) => exists|k: int|
                0 <= k < sel@.len() && #[trigger] id_failure(catalog@, sel@[k] as int) == Some(e@)
                    && forall|j: int| 0 <= j < k ==> id_failure(catalog@, sel@[j] as int) is None,
        },
{
    let n = sel.len();
    let mut plans: Vec<FetchPlan> = Vec::new();
    let mut k: usize = 0;
    while k < n
        invariant
            n == sel@.len(),
            k <= n,
            plans@.len() == k,
            forall|j: int|
                0 <= j < k ==> #[trigger] id_failure(catalog@, sel@[j] as int) is None
                    && plans@[j]@ == resolved_plan(catalog@, sel@[j] as int),
        decreases n - k,
    {
        let id = sel.get(k);
        match fetch_plan(catalog, id) {
            Ok(p) => plans.push(p),
            Err(e) => {
                return Err(e);
            },
        }
        k += 1;
    }
    Ok(plans)
}

} // verus!
