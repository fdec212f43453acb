//! The aggregated series cache: one entry per selected id, built from the
//! fetch plans and the series that came back for them. Numeric series
//! values pass through this library as the decimal text they were
//! transmitted in; the collaborator that draws or computes with them parses
//! that text at the edge.

use vstd::prelude::*;
use crate::series::FetchPlan;
use crate::text::{strs, clone_strings};

verus! {

/// One fetched series: energies and cross sections, pointwise corresponding,
/// each value as its number text.
pub struct SeriesData {
    pub energy_values: Vec<String>,
    pub cross_section_values: Vec<String>,
}

/// The mathematical content of one fetched series.
pub struct SeriesDataView {
    pub energy_values: Seq<Seq<char>>,
    pub cross_section_values: Seq<Seq<char>>,
}

impl View for SeriesData {
    type V = SeriesDataView;

    open spec fn view(&self) -> SeriesDataView {
        SeriesDataView {
            energy_values: strs(self.energy_values@),
            cross_section_values: strs(self.cross_section_values@),
        }
    }
}

impl SeriesDataView {
    /// The two series correspond pointwise.
    pub open spec fn aligned(self) -> bool {
        self.energy_values.len() == self.cross_section_values.len()
    }
}

/// The aggregated, plot-ready series of the current selection: per entry a
/// pair of aligned series, a visibility flag (true on fetch) and a label.
pub struct XsCache {
    pub energy_values: Vec<Vec<String>>,
    pub cross_section_values: Vec<Vec<String>>,
    pub checkbox_selected: Vec<bool>,
    pub labels: Vec<String>,
}

/// The mathematical content of the cache.
pub struct XsCacheView {
    pub energy_values: Seq<Seq<Seq<char>>>,
    pub cross_section_values: Seq<Seq<Seq<char>>>,
    pub checkbox_selected: Seq<bool>,
    pub labels: Seq<Seq<char>>,
}

/// The views of a list of token lists.
pub open spec fn token_lists(s: Seq<Vec<String>>) -> Seq<Seq<Seq<char>>> {
    Seq::new(s.len(), |i: int| strs(s[i]@))
}

impl View for XsCache {
    type V = XsCacheView;

    open spec fn view(&self) -> XsCacheView {
        XsCacheView {
            energy_values: token_lists(self.energy_values@),
            cross_section_values: token_lists(self.cross_section_values@),
            checkbox_selected: self.checkbox_selected@,
            labels: strs(self.labels@),
        }
    }
}

impl XsCacheView {
    /// The four per-entry lists describe the same entries, and each entry's
    /// two series correspond pointwise.
    pub open spec fn wf(self) -> bool {
        &&& self.cross_section_values.len() == self.energy_values.len()
        &&& self.checkbox_selected.len() == self.energy_values.len()
        &&& self.labels.len() == self.energy_values.len()
        &&& forall|i: int|
            0 <= i < self.energy_values.len() ==> #[trigger] self.energy_values[i].len()
                == self.cross_section_values[i].len()
    }
}

/// Aggregates the fetched series into the cache: entry `i` holds the series
/// that came back for plan `i`, its plan's label, and a visibility flag set
/// to true. Order follows the plans, which follow the selection.
pub fn assemble_cache(plans: &Vec<FetchPlan>, series: &Vec<SeriesData>) -> (c: XsCache)
    requires
        plans@.len() == series@.len(),
        forall|i: int| 0 <= i < series@.len() ==> (#[trigger] series@[i]@).aligned(),
    ensures
        c@.wf(),
        c@.energy_values.len() == plans@.len(),
        forall|i: int|
            0 <= i < plans@.len() ==> #[trigger] c@.energy_values[i]
                == series@[i]@.energy_values,
        forall|i: int|
            0 <= i < plans@.len() ==> #[trigger] c@.cross_section_values[i]
                == series@[i]@.cross_section_values,
        forall|i: int| 0 <= i < plans@.len() ==> #[trigger] c@.checkbox_selected[i] == true,
        forall|i: int| 0 <= i < plans@.len() ==> #[trigger] c@.labels[i] == plans@[i]@.label,
{
    let n = plans.len();
    let mut energy_values: Vec<Vec<String>> = Vec::new();
    let mut cross_section_values: Vec<Vec<String>> = Vec::new();
    let mut checkbox_selected: Vec<bool> = Vec::new();
    let mut labels: Vec<String> = Vec::new();
    let mut i: usize = 0;
    while i < n
        invariant
            n == plans@.len(),
            n == series@.len(),
            forall|k: int| 0 <= k < n ==> (#[trigger] series@[k]@).aligned(),
            i <= n,
            energy_values@.len() == i,
            cross_section_values@.len() == i,
            checkbox_selected@.len() == i,
            labels@.len() == i,
            forall|j: int|
                0 <= j < i ==> #[trigger] strs(energy_values@[j]@) == series@[j]@.energy_values,
            forall|j: int|
                0 <= j < i ==> #[trigger] strs(cross_section_values@[j]@)
                    == series@[j]@.cross_section_values,
            forall|j: int| 0 <= j < i ==> #[trigger] checkbox_selected@[j] == true,
            forall|j: int| 0 <= j < i ==> #[trigger] labels@[j]@ == plans@[j]@.label,
        decreases n - i,
    {
        energy_values.push(clone_strings(&series[i].energy_values));
        cross_section_values.push(clone_strings(&series[i].cross_section_values));
        checkbox_selected.push(true);
        labels.push(plans[i].label.clone());
        i += 1;
    }
    let c = XsCache { energy_values, cross_section_values, checkbox_selected, labels };
    proof {
        assert forall|k: int| 0 <= k < n implies #[trigger] c@.energy_values[k]
            == series@[k]@.energy_values by {
            assert(strs(c.energy_values@[k]@) == series@[k]@.energy_values);
        }
        assert forall|k: int| 0 <= k < n implies #[trigger] c@.cross_section_values[k]
            == series@[k]@.cross_section_values by {
            assert(strs(c.cross_section_values@[k]@) == series@[k]@.cross_section_values);
        }
    }
    c
}

} // verus!
