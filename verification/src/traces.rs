//! Finding a named curve among the traces of a Plotly measurement.
use vstd::prelude::*;
use crate::text::{contains_seq, eq_ignore_ascii_case, str_contains, str_eq, str_eq_ignore_ascii_case};
use crate::typed_array::{
    base64_decodable, base64_decodable_text, base64_decoded, decode_base64, dtype_from_name, dtype_named, dtype_width,
    typed_values, typed_values_match, width_of, TypedValues,
};

verus! {

/// One axis of a trace: a typed array with its element type name and its
/// base64 bytes, or any other value.
pub enum AxisData {
    /// A typed array: the element type name and the base64 text of its bytes.
    Typed { dtype: String, bdata: String },
    /// Anything else.
    Other,
}

/// One trace of a Plotly figure: its name when it has a textual one, and
/// its `x` and `y` axes when present.
pub struct PlotTrace {
    /// The trace's name, when it is a string.
    pub name: Option<String>,
    /// The horizontal axis, when present.
    pub x: Option<AxisData>,
    /// The vertical axis, when present.
    pub y: Option<AxisData>,
}

/// The trace names looked for when a measurement is neither `CEA2034` nor
/// the estimated in-room response.
pub open spec fn fallback_curve_names() -> Seq<Seq<char>> {
    seq![
        "Listening Window"@, "On Axis"@, "Sound Power"@, "Early Reflections"@,
        "Estimated In-Room Response"@,
    ]
}

/// Whether a trace name designates the wanted curve: for `CEA2034` (in any
/// ASCII case) and the estimated in-room response the name must equal the
/// curve name; otherwise any name containing one of the standard curve
/// names qualifies.
pub open spec fn is_target_trace(measurement: Seq<char>, curve_name: Seq<char>, candidate: Seq<
    char,
>) -> bool {
    if eq_ignore_ascii_case(measurement, "CEA2034"@) || measurement == "Estimated In-Room Response"@ {
        candidate == curve_name
    } else {
        exists|i: int|
            0 <= i < fallback_curve_names().len() && contains_seq(
                candidate,
                #[trigger] fallback_curve_names()[i],
            )
    }
}

/// For the `CEA2034` measurement (named in any ASCII case) and for the
/// estimated in-room response, a trace is the wanted one exactly when its
/// name is the curve's name: no other name qualifies, not even one that
/// holds a standard curve name.
pub proof fn lemma_spinorama_curves_match_by_exact_name(
    measurement: Seq<char>,
    curve_name: Seq<char>,
    candidate: Seq<char>,
)
    requires
        eq_ignore_ascii_case(measurement, "CEA2034"@) || measurement == "Estimated In-Room Response"@,
    ensures
        is_target_trace(measurement, curve_name, candidate) <==> candidate == curve_name,
{
}

/// For any other measurement, a trace whose name holds one of the four
/// main curves of a CEA2034 set, or the estimated in-room response, is
/// taken, whatever curve is asked for.
pub proof fn lemma_other_measurements_take_standard_curves(
    measurement: Seq<char>,
    curve_name: Seq<char>,
    candidate: Seq<char>,
    w: Seq<char>,
)
    requires
        !(eq_ignore_ascii_case(measurement, "CEA2034"@) || measurement == "Estimated In-Room Response"@),
        (exists|k: int| 0 <= k < 4 && w == #[trigger] cea2034_curve_names()[k]) || w
            == "Estimated In-Room Response"@,
        contains_seq(candidate, w),
    ensures
        is_target_trace(measurement, curve_name, candidate),
{
    let f = fallback_curve_names();
    if w == "Estimated In-Room Response"@ {
        assert(contains_seq(candidate, f[4]));
    } else {
        let k = choose|k: int| 0 <= k < 4 && w == #[trigger] cea2034_curve_names()[k];
        if k == 0 {
            assert(contains_seq(candidate, f[1]));
        } else if k == 1 {
            assert(contains_seq(candidate, f[0]));
        } else if k == 2 {
            assert(contains_seq(candidate, f[3]));
        } else {
            assert(contains_seq(candidate, f[2]));
        }
    }
}

/// Whether `candidate` names the curve wanted from a measurement.
pub fn is_target_trace_name(measurement: &str, curve_name: &str, candidate: &str) -> (b: bool)
    ensures
        b == is_target_trace(measurement@, curve_name@, candidate@),
{
    if str_eq_ignore_ascii_case(measurement, "CEA2034") || str_eq(
        measurement,
        "Estimated In-Room Response",
    ) {
        str_eq(candidate, curve_name)
    } else {
        let r = str_contains(candidate, "Listening Window") || str_contains(candidate, "On Axis")
            || str_contains(candidate, "Sound Power") || str_contains(
            candidate,
            "Early Reflections",
        ) || str_contains(candidate, "Estimated In-Room Response");
        proof {
            let names = fallback_curve_names();
            if r {
                if contains_seq(candidate@, "Listening Window"@) {
                    assert(contains_seq(candidate@, names[0]));
                } else if contains_seq(candidate@, "On Axis"@) {
                    assert(contains_seq(candidate@, names[1]));
                } else if contains_seq(candidate@, "Sound Power"@) {
                    assert(contains_seq(candidate@, names[2]));
                } else if contains_seq(candidate@, "Early Reflections"@) {
                    assert(contains_seq(candidate@, names[3]));
                } else {
                    assert(contains_seq(candidate@, names[4]));
                }
            } else {
                assert forall|i: int| 0 <= i < names.len() implies !contains_seq(
                    candidate@,
                    #[trigger] names[i],
                ) by {
                    if i == 0 {
                    } else if i == 1 {
                    } else if i == 2 {
                    } else if i == 3 {
                    } else {
                    }
                }
            }
        }
        r
    }
}

/// The names of the traces that have one, in order.
pub fn collect_trace_names(traces: &Vec<PlotTrace>) -> (names: Vec<String>)
    ensures
        names@ == traces@.filter(|t: PlotTrace| t.name is Some).map_values(
            |t: PlotTrace| t.name->0,
        ),
{
    let mut names: Vec<String> = Vec::new();
    let mut i: usize = 0;
    while i < traces.len()
        invariant
            0 <= i <= traces.len(),
            names@ == traces@.take(i as int).filter(|t: PlotTrace| t.name is Some).map_values(
                |t: PlotTrace| t.name->0,
            ),
        decreases traces.len() - i,
    {
        proof {
            let pre = traces@.take(i as int);
            let post = traces@.take(i + 1);
            assert(post.drop_last() =~= pre);
            reveal_with_fuel(Seq::filter, 1);
        }
        match &traces[i].name {
            Some(n) => {
                names.push(n.clone());
            },
            None => {},
        }
        i = i + 1;
        proof {
            assert(traces@.take(i as int).drop_last() =~= traces@.take(i - 1));
        }
    }
    assert(traces@.take(traces@.len() as int) =~= traces@);
    names
}

/// Whether a trace is the one a curve is read from: it names the wanted
/// curve and has both axes.
pub open spec fn is_selected(t: PlotTrace, measurement: Seq<char>, curve_name: Seq<char>) -> bool {
    &&& t.name matches Some(n) && is_target_trace(measurement, curve_name, n@)
    &&& t.x is Some
    &&& t.y is Some
}

/// The first selected trace at or after position `i`.
pub open spec fn first_selected(traces: Seq<PlotTrace>, measurement: Seq<char>, curve_name: Seq<
    char,
>, i: int) -> Option<int>
    decreases traces.len() - i,
{
    if i < 0 || i >= traces.len() {
        None
    } else if is_selected(traces[i], measurement, curve_name) {
        Some(i)
    } else {
        first_selected(traces, measurement, curve_name, i + 1)
    }
}

/// Whether an axis that is read decodes: a typed axis must carry a
/// decodable base64 text.
pub open spec fn axis_decodable(a: Option<AxisData>) -> bool {
    a matches Some(AxisData::Typed { dtype, bdata }) ==> base64_decodable(bdata@)
}

/// Whether the axes of the trace a curve is read from decode: the
/// condition under which [`extract_curve_by_name`] may be asked.
pub fn curve_axes_decodable(traces: &Vec<PlotTrace>, measurement: &str, curve_name: &str) -> (b: bool)
    ensures
        b == curve_decodable(traces@, measurement@, curve_name@),
{
    let mut i: usize = 0;
    while i < traces.len()
        invariant
            0 <= i <= traces.len(),
            first_selected(traces@, measurement@, curve_name@, 0) == first_selected(
                traces@,
                measurement@,
                curve_name@,
                i as int,
            ),
        decreases traces.len() - i,
    {
        let t = &traces[i];
        let named = match &t.name {
            Some(n) => is_target_trace_name(measurement, curve_name, n.as_str()),
            None => false,
        };
        if named && t.x.is_some() && t.y.is_some() {
            proof {
                assert(is_selected(traces@[i as int], measurement@, curve_name@));
            }
            let x_ok = match &t.x {
                Some(AxisData::Typed { dtype, bdata }) => base64_decodable_text(bdata.as_str()),
                _ => true,
            };
            let y_ok = match &t.y {
                Some(AxisData::Typed { dtype, bdata }) => base64_decodable_text(bdata.as_str()),
                _ => true,
            };
            return x_ok && y_ok;
        }
        proof {
            assert(!is_selected(traces@[i as int], measurement@, curve_name@));
        }
        i = i + 1;
    }
    true
}

/// The arrays of a curve read from a trace: the frequencies, and the
/// levels when the trace's `y` axis is a typed array.
pub struct CurveArrays {
    /// The frequencies.
    pub freq: TypedValues,
    /// The levels, when the `y` axis is a typed array.
    pub spl: Option<TypedValues>,
}

/// Why no curve could be read.
#[derive(PartialEq, Eq, Structural, Debug)]
pub enum ExtractError {
    /// No selected trace, or its frequency axis is not a non-empty typed array.
    NoCurveData,
}

/// The number of elements of a typed array of element type named `dtype`
/// whose bytes are written in base64 by `bdata`.
pub open spec fn typed_count(dtype: Seq<char>, bdata: Seq<char>) -> int {
    base64_decoded(bdata).len() as int / dtype_width(dtype_named(dtype))
}

/// What reading a curve gives: the first trace that names the wanted curve
/// and has both axes is used; its typed `x` array gives the frequencies
/// (which must be non-empty) and its typed `y` array, if any, the levels.
pub open spec fn extraction_matches(
    traces: Seq<PlotTrace>,
    measurement: Seq<char>,
    curve_name: Seq<char>,
    r: Result<CurveArrays, ExtractError>,
) -> bool {
    match first_selected(traces, measurement, curve_name, 0) {
        None => r == Err::<CurveArrays, ExtractError>(ExtractError::NoCurveData),
        Some(i) => match traces[i].x {
            Some(AxisData::Typed { dtype, bdata }) => if typed_count(dtype@, bdata@) == 0 {
                r == Err::<CurveArrays, ExtractError>(ExtractError::NoCurveData)
            } else {
                r matches Ok(c) && typed_values_match(
                    base64_decoded(bdata@),
                    dtype_named(dtype@),
                    c.freq,
                ) && match traces[i].y {
                    Some(AxisData::Typed { dtype: yd, bdata: yb }) => c.spl matches Some(v)
                        && typed_values_match(base64_decoded(yb@), dtype_named(yd@), v),
                    _ => c.spl is None,
                }
            },
            _ => r == Err::<CurveArrays, ExtractError>(ExtractError::NoCurveData),
        },
    }
}

/// Whether the axes of the trace a curve is read from decode.
pub open spec fn curve_decodable(traces: Seq<PlotTrace>, measurement: Seq<char>, curve_name: Seq<char>) -> bool {
    first_selected(traces, measurement, curve_name, 0) matches Some(i) ==> (axis_decodable(
        traces[i].x,
    ) && axis_decodable(traces[i].y))
}

/// Reads the curve of a measurement from its traces; see
/// [`extraction_matches`].
pub fn extract_curve_by_name(traces: &Vec<PlotTrace>, measurement: &str, curve_name: &str) -> (r:
    Result<CurveArrays, ExtractError>)
    requires
        curve_decodable(traces@, measurement@, curve_name@),
    ensures
        extraction_matches(traces@, measurement@, curve_name@, r),
{
    let mut i: usize = 0;
    while i < traces.len()
        invariant
            0 <= i <= traces.len(),
            first_selected(traces@, measurement@, curve_name@, 0) == first_selected(
                traces@,
                measurement@,
                curve_name@,
                i as int,
            ),
            first_selected(traces@, measurement@, curve_name@, 0) matches Some(j) ==> (
            axis_decodable(traces@[j].x) && axis_decodable(traces@[j].y)),
        decreases traces.len() - i,
    {
        let t = &traces[i];
        let named = match &t.name {
            Some(n) => is_target_trace_name(measurement, curve_name, n.as_str()),
            None => false,
        };
        if named && t.x.is_some() && t.y.is_some() {
            proof {
                assert(is_selected(traces@[i as int], measurement@, curve_name@));
                assert(first_selected(traces@, measurement@, curve_name@, i as int) == Some(
                    i as int,
                ));
            }
            let freq = match &t.x {
                Some(AxisData::Typed { dtype, bdata }) => {
                    let bytes = decode_base64(bdata.as_str());
                    let d = dtype_from_name(dtype.as_str());
                    let w = width_of(d);
                    if bytes.len() / w == 0 {
                        return Err(ExtractError::NoCurveData);
                    }
                    typed_values(&bytes, d)
                },
                _ => {
                    return Err(ExtractError::NoCurveData);
                },
            };
            let spl = match &t.y {
                Some(AxisData::Typed { dtype, bdata }) => {
                    let bytes = decode_base64(bdata.as_str());
                    Some(typed_values(&bytes, dtype_from_name(dtype.as_str())))
                },
                _ => None,
            };
            return Ok(CurveArrays { freq, spl });
        }
        proof {
            assert(!is_selected(traces@[i as int], measurement@, curve_name@));
        }
        i = i + 1;
    }
    Err(ExtractError::NoCurveData)
}

/// The curves of a CEA2034 set that are read, in order.
pub open spec fn cea2034_curve_names() -> Seq<Seq<char>> {
    seq![
        "On Axis"@, "Listening Window"@, "Early Reflections"@, "Sound Power"@,
        "Early Reflections DI"@, "Sound Power DI"@,
    ]
}

fn cea2034_curve_name(k: usize) -> (n: &'static str)
    requires
        k < 6,
    ensures
        n@ == cea2034_curve_names()[k as int],
{
    if k == 0 {
        "On Axis"
    } else if k == 1 {
        "Listening Window"
    } else if k == 2 {
        "Early Reflections"
    } else if k == 3 {
        "Sound Power"
    } else if k == 4 {
        "Early Reflections DI"
    } else {
        "Sound Power DI"
    }
}

/// Why a CEA2034 set could not be read.
#[derive(PartialEq, Eq, Debug)]
pub enum Cea2034Error {
    /// A curve of the set could not be read; the names of the traces that
    /// the data does hold are given.
    MissingCurve { name: String, available: Vec<String> },
}

/// The names of the traces that have one, in order.
pub open spec fn trace_names(traces: Seq<PlotTrace>) -> Seq<Seq<char>> {
    traces.filter(|t: PlotTrace| t.name is Some).map_values(|t: PlotTrace| t.name->0@)
}

/// Reads the six curves of a CEA2034 set, in the order of
/// [`cea2034_curve_names`]; the first one that cannot be read is reported
/// with the names of the traces present.
pub fn extract_cea2034_arrays(traces: &Vec<PlotTrace>, measurement: &str) -> (r: Result<
    Vec<CurveArrays>,
    Cea2034Error,
>)
    requires
        forall|k: int|
            0 <= k < 6 ==> curve_decodable(traces@, measurement@, #[trigger] cea2034_curve_names()[k]),
    ensures
        match r {
            Ok(v) => v@.len() == 6 && forall|k: int|
                0 <= k < 6 ==> extraction_matches(
                    traces@,
                    measurement@,
                    #[trigger] cea2034_curve_names()[k],
                    Ok(v@[k]),
                ),
            Err(Cea2034Error::MissingCurve { name, available }) => exists|k: int|
                0 <= k < 6 && name@ == #[trigger] cea2034_curve_names()[k] && (forall|j: int|
                    0 <= j < k ==> exists|c: CurveArrays|
                        extraction_matches(traces@, measurement@, #[trigger] cea2034_curve_names()[j], Ok(c)))
                    && exists|e: ExtractError|
                    extraction_matches(traces@, measurement@, cea2034_curve_names()[k], Err(e))
                    && available@.map_values(|n: String| n@) == trace_names(traces@),
        },
{
    let mut out: Vec<CurveArrays> = Vec::new();
    let mut k: usize = 0;
    while k < 6
        invariant
            0 <= k <= 6,
            out@.len() == k,
            forall|k: int|
                0 <= k < 6 ==> curve_decodable(traces@, measurement@, #[trigger] cea2034_curve_names()[k]),
            forall|j: int|
                0 <= j < k ==> extraction_matches(
                    traces@,
                    measurement@,
                    #[trigger] cea2034_curve_names()[j],
                    Ok(out@[j]),
                ),
        decreases 6 - k,
    {
        let name = cea2034_curve_name(k);
        assert(curve_decodable(traces@, measurement@, cea2034_curve_names()[k as int]));
        let r = extract_curve_by_name(traces, measurement, name);
        match r {
            Ok(c) => {
                out.push(c);
            },
            Err(e) => {
                let available = collect_trace_names(traces);
                let mut n = String::new();
                n.append(name);
                proof {
                    assert forall|j: int| 0 <= j < k implies exists|c: CurveArrays|
                        extraction_matches(traces@, measurement@, #[trigger] cea2034_curve_names()[j], Ok(c)) by {
                        assert(extraction_matches(traces@, measurement@, cea2034_curve_names()[j], Ok(out@[j])));
                    }
                    assert(available@.map_values(|n: String| n@) =~= trace_names(traces@));
                }
                return Err(Cea2034Error::MissingCurve { name: n, available });
            },
        }
        k = k + 1;
    }
    Ok(out)
}

} // verus!
