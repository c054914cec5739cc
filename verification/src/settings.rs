//! Checks and derived values of the optimisation settings that are whole
//! numbers, and the choice of the curve to equalise.
use vstd::prelude::*;
use crate::text::{decimal, eq_ignore_ascii_case, push_decimal, str_eq_ignore_ascii_case};

verus! {

/// The loss an optimisation minimises.
#[derive(PartialEq, Eq, Structural, Clone, Copy, Debug)]
pub enum LossType {
    /// Deviation from the target curve.
    Flat,
    /// The predicted preference score.
    Score,
}

fn text(t: &str) -> (s: String)
    ensures
        s@ == t@,
{
    let mut s = String::new();
    s.append(t);
    s
}

/// Checks the number of filters: from 1 to 50.
pub fn check_filter_count(num_filters: usize) -> (r: Result<(), String>)
    ensures
        num_filters == 0 ==> (r matches Err(m) && m@ == "Number of filters must be at least 1"@),
        num_filters > 50 ==> (r matches Err(m) && m@ == "Number of filters must be between 1 and 50 (got: "@
            + decimal(num_filters as nat) + ")"@),
        1 <= num_filters <= 50 ==> r is Ok,
{
    if num_filters == 0 {
        return Err(text("Number of filters must be at least 1"));
    }
    if num_filters > 50 {
        let mut m = text("Number of filters must be between 1 and 50 (got: ");
        push_decimal(&mut m, num_filters as u64);
        m.append(")");
        return Err(m);
    }
    Ok(())
}

/// The first problem with the population size, evaluation budget and
/// smoothing resolution, in that order: the population must be from 1 to
/// 10,000, the budget at least 1, and the resolution from 1 to 24.
pub open spec fn budget_problem(population: usize, maxeval: usize, smooth_n: usize) -> Option<Seq<char>> {
    if population == 0 {
        Some("Population size must be at least 1"@)
    } else if population > 10000 {
        Some("Population size must be between 1 and 10,000 (got: "@ + decimal(population as nat) + ")"@)
    } else if maxeval == 0 {
        Some("Maximum evaluations must be at least 1"@)
    } else if smooth_n < 1 || smooth_n > 24 {
        Some("Smoothing N must be between 1 and 24 (got: "@ + decimal(smooth_n as nat) + ")"@)
    } else {
        None
    }
}

/// Checks the population size, evaluation budget and smoothing resolution.
pub fn check_search_budget(population: usize, maxeval: usize, smooth_n: usize) -> (r: Result<(), String>)
    ensures
        match budget_problem(population, maxeval, smooth_n) {
            Some(p) => r matches Err(m) && m@ == p,
            None => r is Ok,
        },
{
    if population == 0 {
        return Err(text("Population size must be at least 1"));
    }
    if population > 10000 {
        let mut m = text("Population size must be between 1 and 10,000 (got: ");
        push_decimal(&mut m, population as u64);
        m.append(")");
        return Err(m);
    }
    if maxeval == 0 {
        return Err(text("Maximum evaluations must be at least 1"));
    }
    if smooth_n < 1 || smooth_n > 24 {
        let mut m = text("Smoothing N must be between 1 and 24 (got: ");
        push_decimal(&mut m, smooth_n as u64);
        m.append(")");
        return Err(m);
    }
    Ok(())
}

/// The population used when none is given: twenty per parameter (three
/// parameters per filter), and at least 100.
pub fn default_population(num_filters: usize) -> (p: usize)
    requires
        num_filters * 60 <= usize::MAX,
    ensures
        p == (if num_filters * 60 < 100 { 100 } else { num_filters * 60 }),
{
    let n = 20 * (num_filters * 3);
    if n < 100 {
        100
    } else {
        n
    }
}

/// The evaluation budget of the local refinement: half the global budget,
/// and at least one.
pub fn local_maxeval(maxeval: usize) -> (m: usize)
    ensures
        m == (if maxeval / 2 < 1 { 1 } else { maxeval / 2 }),
{
    let h = maxeval / 2;
    if h < 1 {
        1
    } else {
        h
    }
}

/// Where the curve to equalise comes from.
#[derive(PartialEq, Eq, Debug)]
pub enum InputSource {
    /// A measurement of the online database.
    Api { speaker: String, version: String, measurement: String },
    /// A local CSV file.
    CsvFile(String),
}

/// The message when neither source is fully given.
pub open spec fn missing_source_message() -> Seq<char> {
    "Either --curve or all of --speaker, --version, and --measurement must be provided"@
}

/// Picks the input curve's source: the database when speaker, version and
/// measurement are all given, else the CSV file, which is then required.
pub fn choose_input_source(
    speaker: Option<String>,
    version: Option<String>,
    measurement: Option<String>,
    curve: Option<String>,
) -> (r: Result<InputSource, String>)
    ensures
        match (speaker, version, measurement) {
            (Some(s), Some(v), Some(m)) => r == Ok::<InputSource, String>(
                InputSource::Api { speaker: s, version: v, measurement: m },
            ),
            _ => match curve {
                Some(c) => r == Ok::<InputSource, String>(InputSource::CsvFile(c)),
                None => r matches Err(e) && e@ == missing_source_message(),
            },
        },
{
    match (speaker, version, measurement) {
        (Some(s), Some(v), Some(m)) => Ok(InputSource::Api { speaker: s, version: v, measurement: m }),
        _ => match curve {
            Some(c) => Ok(InputSource::CsvFile(c)),
            None => Err(text(
                "Either --curve or all of --speaker, --version, and --measurement must be provided",
            )),
        },
    }
}

/// Whether the preference score is computed: for a `CEA2034` measurement
/// (in any ASCII case) of a speaker and version from the database.
pub fn uses_cea2034_score(measurement: Option<&str>, has_speaker: bool, has_version: bool) -> (b: bool)
    ensures
        b == ((measurement matches Some(m) && eq_ignore_ascii_case(m@, "CEA2034"@)) && has_speaker
            && has_version),
{
    let is_cea = match measurement {
        Some(m) => str_eq_ignore_ascii_case(m, "CEA2034"),
        None => false,
    };
    is_cea && has_speaker && has_version
}

} // verus!
