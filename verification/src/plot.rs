use vstd::prelude::*;
use crate::text::{push_decimal, str_eq, decimal};

verus! {

/// The qualitative palette used to colour filter traces.
pub open spec fn palette() -> Seq<Seq<char>> {
    seq![
        "#1f77b4"@, "#ff7f0e"@, "#2ca02c"@, "#d62728"@, "#9467bd"@,
        "#8c564b"@, "#e377c2"@, "#7f7f7f"@, "#bcbd22"@, "#17becf"@,
    ]
}

/// Colour of the `index`-th trace: the palette is cycled through.
pub fn filter_color(index: usize) -> (c: &'static str)
    ensures
        c@ == palette()[(index % 10) as int],
{
    let i = index % 10;
    if i == 0 {
        "#1f77b4"
    } else if i == 1 {
        "#ff7f0e"
    } else if i == 2 {
        "#2ca02c"
    } else if i == 3 {
        "#d62728"
    } else if i == 4 {
        "#9467bd"
    } else if i == 5 {
        "#8c564b"
    } else if i == 6 {
        "#e377c2"
    } else if i == 7 {
        "#7f7f7f"
    } else if i == 8 {
        "#bcbd22"
    } else {
        "#17becf"
    }
}

/// The names under which each of the four CEA2034 panels may appear in a
/// dataset, in order of preference.
pub open spec fn cea2034_aliases() -> Seq<Seq<Seq<char>>> {
    seq![
        seq!["On Axis"@],
        seq!["Listening Window"@, "Lateral"@],
        seq!["Early Reflections"@, "Vertical"@],
        seq!["Sound Power"@, "Estimated In-Room Response"@],
    ]
}

/// The axis pair of each CEA2034 panel.
pub open spec fn cea2034_axes() -> Seq<(Seq<char>, Seq<char>)> {
    seq![("x3"@, "y3"@), ("x4"@, "y4"@), ("x5"@, "y5"@), ("x6"@, "y6"@)]
}

/// Whether a curve of that name is available.
pub open spec fn has_curve(available: Seq<String>, name: Seq<char>) -> bool {
    exists|k: int| 0 <= k < available.len() && (#[trigger] available[k])@ == name
}

/// The first alias of the list that names an available curve.
pub open spec fn first_present(available: Seq<String>, aliases: Seq<Seq<char>>, j: int) -> Option<Seq<char>>
    decreases aliases.len() - j,
{
    if j < 0 || j >= aliases.len() {
        None
    } else if has_curve(available, aliases[j]) {
        Some(aliases[j])
    } else {
        first_present(available, aliases, j + 1)
    }
}

/// One CEA2034 trace to draw: the curve's name, its label, its axes and
/// its colour index.
pub struct TracePlan {
    /// Name of the curve drawn.
    pub curve: String,
    /// Label of the trace.
    pub label: String,
    /// Horizontal axis.
    pub x_axis: &'static str,
    /// Vertical axis.
    pub y_axis: &'static str,
    /// Index into the palette.
    pub color_index: usize,
}

/// The traces of the CEA2034 panels, for the curves under the given names:
/// each panel shows its first available alias, and a panel with none is
/// left out. With `with_eq` the labels get ` + EQ` and the colours move
/// past the first four.
pub open spec fn trace_plan_matches(available: Seq<String>, with_eq: bool, plan: Seq<TracePlan>) -> bool {
    let present = Seq::new(4, |i: int| first_present(available, cea2034_aliases()[i], 0));
    let shown = Seq::new(4, |i: int| i).filter(|i: int| present[i] is Some);
    &&& plan.len() == shown.len()
    &&& forall|k: int| 0 <= k < plan.len() ==> {
        let i = shown[k];
        let name = present[i]->0;
        &&& (#[trigger] plan[k]).curve@ == name
        &&& plan[k].label@ == (if with_eq { name + " + EQ"@ } else { name })
        &&& plan[k].x_axis@ == cea2034_axes()[i].0
        &&& plan[k].y_axis@ == cea2034_axes()[i].1
        &&& plan[k].color_index == (if with_eq { i + 4 } else { i })
    }
}

fn curve_available(available: &Vec<String>, name: &str) -> (b: bool)
    ensures
        b == has_curve(available@, name@),
{
    let mut k: usize = 0;
    while k < available.len()
        invariant
            0 <= k <= available.len(),
            forall|m: int| 0 <= m < k ==> (#[trigger] available@[m])@ != name@,
        decreases available.len() - k,
    {
        if str_eq(available[k].as_str(), name) {
            return true;
        }
        k = k + 1;
    }
    false
}

fn owned(t: &str) -> (s: String)
    ensures
        s@ == t@,
{
    let mut s = String::new();
    s.append(t);
    s
}

/// Plans the CEA2034 panel traces; see [`trace_plan_matches`].
pub fn cea2034_trace_plan(available: &Vec<String>, with_eq: bool) -> (plan: Vec<TracePlan>)
    ensures
        trace_plan_matches(available@, with_eq, plan@),
{
    let ghost present = Seq::new(4, |i: int| first_present(available@, cea2034_aliases()[i], 0));
    let ghost idx = Seq::new(4, |i: int| i);
    let mut plan: Vec<TracePlan> = Vec::new();
    let mut i: usize = 0;
    while i < 4
        invariant
            0 <= i <= 4,
            present == Seq::new(4, |i: int| first_present(available@, cea2034_aliases()[i], 0)),
            idx == Seq::new(4, |i: int| i),
            trace_plan_matches_prefix(available@, with_eq, plan@, idx.take(i as int).filter(|j: int| present[j] is Some)),
        decreases 4 - i,
    {
        let found: Option<&'static str> = if i == 0 {
            if curve_available(available, "On Axis") {
                Some("On Axis")
            } else {
                None
            }
        } else if i == 1 {
            if curve_available(available, "Listening Window") {
                Some("Listening Window")
            } else if curve_available(available, "Lateral") {
                Some("Lateral")
            } else {
                None
            }
        } else if i == 2 {
            if curve_available(available, "Early Reflections") {
                Some("Early Reflections")
            } else if curve_available(available, "Vertical") {
                Some("Vertical")
            } else {
                None
            }
        } else {
            if curve_available(available, "Sound Power") {
                Some("Sound Power")
            } else if curve_available(available, "Estimated In-Room Response") {
                Some("Estimated In-Room Response")
            } else {
                None
            }
        };
        proof {
            let al = cea2034_aliases()[i as int];
            assert(first_present(available@, al, al.len() as int) is None);
            if al.len() == 2 {
                assert(first_present(available@, al, 1) == (if has_curve(available@, al[1]) { Some(al[1]) } else { None::<Seq<char>> }));
            }
            assert(found matches Some(n) ==> present[i as int] == Some(n@));
            assert(found is None ==> present[i as int] is None);
            assert(idx.take(i + 1).drop_last() =~= idx.take(i as int));
            assert(idx.take(i + 1).last() == i as int);
            reveal_with_fuel(Seq::filter, 1);
        }
        let ghost sh_old = idx.take(i as int).filter(|j: int| present[j] is Some);
        let ghost sh_new = idx.take(i + 1).filter(|j: int| present[j] is Some);
        assert(sh_new == (if present[i as int] is Some { sh_old.push(i as int) } else { sh_old }));
        let ghost plan_old = plan@;
        match found {
            Some(name) => {
                let (x_axis, y_axis): (&'static str, &'static str) = if i == 0 {
                    ("x3", "y3")
                } else if i == 1 {
                    ("x4", "y4")
                } else if i == 2 {
                    ("x5", "y5")
                } else {
                    ("x6", "y6")
                };
                let mut label = owned(name);
                if with_eq {
                    label.append(" + EQ");
                }
                let color_index = if with_eq { i + 4 } else { i };
                plan.push(TracePlan { curve: owned(name), label, x_axis, y_axis, color_index });
                proof {
                    assert(plan@.last().curve@ == name@);
                }
            },
            None => {},
        }
        i = i + 1;
    }
    proof {
        assert(idx.take(4) =~= idx);
    }
    plan
}

/// [`trace_plan_matches`] for the panels whose indices are `shown`.
pub open spec fn trace_plan_matches_prefix(available: Seq<String>, with_eq: bool, plan: Seq<TracePlan>, shown: Seq<int>) -> bool {
    let present = Seq::new(4, |i: int| first_present(available, cea2034_aliases()[i], 0));
    &&& plan.len() == shown.len()
    &&& forall|k: int| 0 <= k < plan.len() ==> {
        let i = shown[k];
        let name = present[i]->0;
        &&& (#[trigger] plan[k]).curve@ == name
        &&& plan[k].label@ == (if with_eq { name + " + EQ"@ } else { name })
        &&& plan[k].x_axis@ == cea2034_axes()[i].0
        &&& plan[k].y_axis@ == cea2034_axes()[i].1
        &&& plan[k].color_index == (if with_eq { i + 4 } else { i })
    }
}

/// The title of the results plot: the speaker and the number of filters,
/// or a generic title without a (non-empty) speaker name.
pub open spec fn plot_title_text(speaker: Option<Seq<char>>, num_filters: usize) -> Seq<char> {
    match speaker {
        Some(s) => if s.len() > 0 {
            s + " -- #"@ + decimal(num_filters as nat) + " peq(s)"@
        } else {
            "IIR Filter Optimization Results"@
        },
        None => "IIR Filter Optimization Results"@,
    }
}

/// See [`plot_title_text`].
pub fn plot_title(speaker: Option<&str>, num_filters: usize) -> (t: String)
    ensures
        t@ == plot_title_text(
            match speaker {
                Some(s) => Some(s@),
                None => None,
            },
            num_filters,
        ),
{
    match speaker {
        Some(s) => {
            if s.unicode_len() > 0 {
                let mut t = owned(s);
                t.append(" -- #");
                push_decimal(&mut t, num_filters as u64);
                t.append(" peq(s)");
                return t;
            }
        },
        None => {},
    }
    owned("IIR Filter Optimization Results")
}

} // verus!
