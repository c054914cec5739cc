//! How a Plotly measurement is recovered from what the service returned
//! or what the cache holds: the service wraps the Plotly JSON text in a
//! one-element array, and caches hold either form.
use vstd::prelude::*;

verus! {

/// The outline of a parsed JSON value, as far as recovery looks at it.
#[derive(Clone, Debug, PartialEq, Eq)]
pub enum JsonTop {
    /// An object.
    Object,
    /// An array: its first element when it has one, given as its text
    /// when it is a string.
    Array { first: Option<Option<String>> },
    /// A string.
    Str(String),
    /// Anything else.
    Other,
}

fn text(t: &str) -> (s: String)
    ensures
        s@ == t@,
{
    let mut s = String::new();
    s.append(t);
    s
}

/// The Plotly JSON text inside a service reply, which must be an array
/// whose first element is a string.
pub fn api_payload_text(top: &JsonTop) -> (r: Result<String, String>)
    ensures
        match top {
            JsonTop::Array { first: Some(Some(s)) } => r == Ok::<String, String>(*s),
            JsonTop::Array { first: Some(None) } => r matches Err(m) && m@
                == "First element is not a string"@,
            JsonTop::Array { first: None } => r matches Err(m) && m@ == "Empty API response"@,
            _ => r matches Err(m) && m@ == "API response is not an array"@,
        },
{
    match top {
        JsonTop::Array { first: Some(Some(s)) } => Ok(s.clone()),
        JsonTop::Array { first: Some(None) } => Err(text("First element is not a string")),
        JsonTop::Array { first: None } => Err(text("Empty API response")),
        _ => Err(text("API response is not an array")),
    }
}

/// What to do with a parsed cache file.
#[derive(Clone, Debug, PartialEq, Eq)]
pub enum CachedPlan {
    /// It is the Plotly object itself.
    UseAsIs,
    /// Parse this inner text; when that fails, report the cache as
    /// unrecognised if `unrecognized_on_failure`, else report the parse
    /// error.
    ParseInner { text: String, unrecognized_on_failure: bool },
    /// Report the cache as unrecognised.
    Unrecognized,
}

/// The message for a cache file of no known form.
pub open spec fn unrecognized_cache_message() -> Seq<char> {
    "Unrecognized cached JSON format"@
}

/// Recovers the Plotly object from a cache file: an object is used as it
/// is; a service reply is unwrapped (and, if its text does not parse, the
/// cache is unrecognised); a string holding the JSON text is parsed.
pub fn cached_payload_plan(top: &JsonTop) -> (p: CachedPlan)
    ensures
        match top {
            JsonTop::Object => p == CachedPlan::UseAsIs,
            JsonTop::Array { first: Some(Some(s)) } => p == (CachedPlan::ParseInner {
                text: *s,
                unrecognized_on_failure: true,
            }),
            JsonTop::Str(s) => p == (CachedPlan::ParseInner { text: *s, unrecognized_on_failure: false }),
            _ => p == CachedPlan::Unrecognized,
        },
{
    match top {
        JsonTop::Object => CachedPlan::UseAsIs,
        JsonTop::Array { first: Some(Some(s)) } => CachedPlan::ParseInner {
            text: s.clone(),
            unrecognized_on_failure: true,
        },
        JsonTop::Str(s) => CachedPlan::ParseInner { text: s.clone(), unrecognized_on_failure: false },
        _ => CachedPlan::Unrecognized,
    }
}

/// The message of a cache file that cannot be used.
pub fn unrecognized_cache() -> (m: String)
    ensures
        m@ == unrecognized_cache_message(),
{
    text("Unrecognized cached JSON format")
}

} // verus!
