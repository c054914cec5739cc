//! The speaker-measurement service as the user interface queries it:
//! the records it returns and the addresses of its endpoints.
use vstd::prelude::*;
use crate::api::api_base;

verus! {

/// A speaker known to the service.
#[derive(Clone, Debug, PartialEq, Eq)]
pub struct SpeakerInfo {
    /// Brand name.
    pub brand: String,
    /// Model name.
    pub model: String,
    /// Measurement version, when given.
    pub version: Option<String>,
}

/// A measurement of a speaker.
#[derive(Clone, Debug, PartialEq, Eq)]
pub struct MeasurementInfo {
    /// Identifier of the measurement.
    pub measurement_id: String,
    /// Kind of measurement.
    pub measurement_type: String,
    /// Who measured.
    pub reviewer: String,
}

/// Address of the speaker list.
pub fn speaker_list_url() -> (u: String)
    ensures
        u@ == api_base() + "/speakers"@,
{
    let mut u = String::new();
    u.append("https://api.spinorama.org");
    u.append("/speakers");
    u
}

/// Address of the measurements of a speaker: brand and model are put in
/// the path as they are.
pub fn speaker_measurements_url(brand: &str, model: &str) -> (u: String)
    ensures
        u@ == api_base() + "/speakers/"@ + brand@ + "/"@ + model@ + "/measurements"@,
{
    let mut u = String::new();
    u.append("https://api.spinorama.org");
    u.append("/speakers/");
    u.append(brand);
    u.append("/");
    u.append(model);
    u.append("/measurements");
    proof {
        assert(u@ =~= api_base() + "/speakers/"@ + brand@ + "/"@ + model@ + "/measurements"@);
    }
    u
}

/// Address of the CEA2034 data of a measurement.
pub fn cea2034_url(brand: &str, model: &str, measurement_id: &str) -> (u: String)
    ensures
        u@ == api_base() + "/speakers/"@ + brand@ + "/"@ + model@ + "/measurements/"@
            + measurement_id@ + "/cea2034"@,
{
    let mut u = String::new();
    u.append("https://api.spinorama.org");
    u.append("/speakers/");
    u.append(brand);
    u.append("/");
    u.append(model);
    u.append("/measurements/");
    u.append(measurement_id);
    u.append("/cea2034");
    proof {
        assert(u@ =~= api_base() + "/speakers/"@ + brand@ + "/"@ + model@ + "/measurements/"@
            + measurement_id@ + "/cea2034"@);
    }
    u
}

/// Address of one curve of a measurement.
pub fn curve_url(brand: &str, model: &str, measurement_id: &str, curve_name: &str) -> (u: String)
    ensures
        u@ == api_base() + "/speakers/"@ + brand@ + "/"@ + model@ + "/measurements/"@
            + measurement_id@ + "/curves/"@ + curve_name@,
{
    let mut u = String::new();
    u.append("https://api.spinorama.org");
    u.append("/speakers/");
    u.append(brand);
    u.append("/");
    u.append(model);
    u.append("/measurements/");
    u.append(measurement_id);
    u.append("/curves/");
    u.append(curve_name);
    proof {
        assert(u@ =~= api_base() + "/speakers/"@ + brand@ + "/"@ + model@ + "/measurements/"@
            + measurement_id@ + "/curves/"@ + curve_name@);
    }
    u
}

/// Checks the status of a reply: a failed one is reported with the
/// status as the HTTP client shows it.
pub fn check_reply_status(success: bool, status: &str) -> (r: Result<(), String>)
    ensures
        success ==> r is Ok,
        !success ==> (r matches Err(m) && m@ == "API returned error: "@ + status@),
{
    if success {
        Ok(())
    } else {
        let mut m = String::new();
        m.append("API returned error: ");
        m.append(status);
        Err(m)
    }
}

} // verus!
