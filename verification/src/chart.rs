//! Chart decisions: which traces are drawn, what the axes are titled, and
//! whether each axis is logarithmic. Entries whose label speaks of heating
//! or damage carry a different physical quantity than cross-section entries
//! and get a different y-axis title; a mixed selection gets the combined
//! title. The drawing itself is a collaborator's job.

use vstd::prelude::*;
use crate::cache::{XsCache, XsCacheView};
use crate::text::{contains_sub, contains_str, strs, clone_strings};

verus! {

/// The two independent axis-scale flags; both default to logarithmic.
pub struct AxisScaleState {
    pub x_log: bool,
    pub y_log: bool,
}

impl AxisScaleState {
    /// The default scales: both axes logarithmic.
    pub fn new() -> (r: AxisScaleState)
        ensures
            r.x_log,
            r.y_log,
    {
        AxisScaleState { x_log: true, y_log: true }
    }

    /// Flips the x-axis scale; the y-axis is untouched.
    pub fn toggle_x(&mut self)
        ensures
            final(self).x_log == !old(self).x_log,
            final(self).y_log == old(self).y_log,
    {
        self.x_log = !self.x_log;
    }

    /// Flips the y-axis scale; the x-axis is untouched.
    pub fn toggle_y(&mut self)
        ensures
            final(self).y_log == !old(self).y_log,
            final(self).x_log == old(self).x_log,
    {
        self.y_log = !self.y_log;
    }
}

/// A heating or damage curve, recognized by its label.
pub open spec fn is_heat_or_damage(label: Seq<char>) -> bool {
    contains_sub(label, "heat"@) || contains_sub(label, "damage"@)
}

/// Some visible entry is a heating/damage curve.
pub open spec fn any_visible_heat(c: XsCacheView) -> bool {
    exists|i: int|
        0 <= i < c.labels.len() && c.checkbox_selected[i] && is_heat_or_damage(#[trigger] c.labels[i])
}

/// Some visible entry is a cross-section curve.
pub open spec fn any_visible_cross(c: XsCacheView) -> bool {
    exists|i: int|
        0 <= i < c.labels.len() && c.checkbox_selected[i] && !is_heat_or_damage(
            #[trigger] c.labels[i],
        )
}

/// The y-axis title the visible entries call for: the cross-section title,
/// the heating title, both, or none.
pub open spec fn y_axis_title_chars(c: XsCacheView) -> Seq<char> {
    if any_visible_cross(c) && any_visible_heat(c) {
        "Microscopic Cross Section [barns], Heating Cross Section [eV-barn]"@
    } else if any_visible_cross(c) {
        "Microscopic Cross Section [barns]"@
    } else if any_visible_heat(c) {
        "Heating Cross Section [eV-barn]"@
    } else {
        ""@
    }
}

/// Decides whether a label names a heating or damage curve.
pub fn heat_or_damage(label: &String) -> (r: bool)
    ensures
        r == is_heat_or_damage(label@),
{
    contains_str(label.as_str(), "heat") || contains_str(label.as_str(), "damage")
}

/// Derives the y-axis title from the visible entries.
pub fn y_axis_title(cache: &XsCache) -> (t: String)
    requires
        cache@.wf(),
    ensures
        t@ == y_axis_title_chars(cache@),
{
    let n = cache.labels.len();
    let mut heat_plotted = false;
    let mut cross_plotted = false;
    let mut i: usize = 0;
    while i < n
        invariant
            cache@.wf(),
            n == cache.labels@.len(),
            i <= n,
            heat_plotted == exists|j: int|
                0 <= j < i && cache@.checkbox_selected[j] && is_heat_or_damage(
                    #[trigger] cache@.labels[j],
                ),
            cross_plotted == exists|j: int|
                0 <= j < i && cache@.checkbox_selected[j] && !is_heat_or_damage(
                    #[trigger] cache@.labels[j],
                ),
        decreases n - i,
    {
        if cache.checkbox_selected[i] {
            if heat_or_damage(&cache.labels[i]) {
                proof {
                    assert(cache@.checkbox_selected[i as int] && is_heat_or_damage(
                        cache@.labels[i as int],
                    ));
                }
                heat_plotted = true;
            } else {
                proof {
                    assert(cache@.checkbox_selected[i as int] && !is_heat_or_damage(
                        cache@.labels[i as int],
                    ));
                }
                cross_plotted = true;
            }
        }
        i += 1;
    }
    proof {
        assert(heat_plotted == any_visible_heat(cache@));
        assert(cross_plotted == any_visible_cross(cache@));
    }
    if cross_plotted && heat_plotted {
        String::from_str("Microscopic Cross Section [barns], Heating Cross Section [eV-barn]")
    } else if cross_plotted {
        String::from_str("Microscopic Cross Section [barns]")
    } else if heat_plotted {
        String::from_str("Heating Cross Section [eV-barn]")
    } else {
        String::from_str("")
    }
}

/// The x-axis title, always the energy axis.
pub fn x_axis_title() -> (t: String)
    ensures
        t@ == "Energy [eV]"@,
{
    String::from_str("Energy [eV]")
}

/// One drawn curve: its name and its two aligned series.
pub struct Trace {
    pub label: String,
    pub energy_values: Vec<String>,
    pub cross_section_values: Vec<String>,
}

/// The mathematical content of a trace.
pub struct TraceView {
    pub label: Seq<char>,
    pub energy_values: Seq<Seq<char>>,
    pub cross_section_values: Seq<Seq<char>>,
}

impl View for Trace {
    type V = TraceView;

    open spec fn view(&self) -> TraceView {
        TraceView {
            label: self.label@,
            energy_values: strs(self.energy_values@),
            cross_section_values: strs(self.cross_section_values@),
        }
    }
}

/// The trace of entry `i` of the cache.
pub open spec fn trace_of(c: XsCacheView, i: int) -> TraceView {
    TraceView {
        label: c.labels[i],
        energy_values: c.energy_values[i],
        cross_section_values: c.cross_section_values[i],
    }
}

/// The traces of the first `n` entries: one per visible entry, in cache
/// order; invisible entries are omitted entirely.
pub open spec fn traces_upto(c: XsCacheView, n: int) -> Seq<TraceView>
    decreases n,
{
    if n <= 0 {
        Seq::empty()
    } else {
        traces_upto(c, n - 1) + if c.checkbox_selected[n - 1] {
            seq![trace_of(c, n - 1)]
        } else {
            Seq::empty()
        }
    }
}

/// The traces the chart draws: one per visible entry, in cache order.
pub open spec fn traces_spec(c: XsCacheView) -> Seq<TraceView> {
    traces_upto(c, c.labels.len() as int)
}

/// Everything the chart needs: the traces, the two axis titles, and the two
/// independent scale flags.
pub struct PlotPlan {
    pub traces: Vec<Trace>,
    pub x_axis_title: String,
    pub y_axis_title: String,
    pub x_log: bool,
    pub y_log: bool,
}

/// Lays out the chart for the visible entries of the cache under the two
/// axis-scale flags.
pub fn plot_plan(cache: &XsCache, scales: &AxisScaleState) -> (p: PlotPlan)
    requires
        cache@.wf(),
    ensures
        p.x_axis_title@ == "Energy [eV]"@,
        p.y_axis_title@ == y_axis_title_chars(cache@),
        p.x_log == scales.x_log,
        p.y_log == scales.y_log,
        Seq::new(p.traces@.len(), |i: int| p.traces@[i]@) == traces_spec(cache@),
{
    let n = cache.labels.len();
    let mut traces: Vec<Trace> = Vec::new();
    let mut i: usize = 0;
    while i < n
        invariant
            cache@.wf(),
            n == cache.labels@.len(),
            i <= n,
            Seq::new(traces@.len(), |k: int| traces@[k]@) == traces_upto(cache@, i as int),
        decreases n - i,
    {
        if cache.checkbox_selected[i] {
            let t = Trace {
                label: cache.labels[i].clone(),
                energy_values: clone_strings(&cache.energy_values[i]),
                cross_section_values: clone_strings(&cache.cross_section_values[i]),
            };
            proof {
                assert(t@ == trace_of(cache@, i as int));
            }
            traces.push(t);
        }
        proof {
            assert(Seq::new(traces@.len(), |k: int| traces@[k]@) =~= traces_upto(
                cache@,
                i + 1,
            ));
        }
        i += 1;
    }
    PlotPlan {
        traces,
        x_axis_title: x_axis_title(),
        y_axis_title: y_axis_title(cache),
        x_log: scales.x_log,
        y_log: scales.y_log,
    }
}

} // verus!
