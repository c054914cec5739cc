//! Addresses of the spinorama measurement service.
use vstd::prelude::*;
use vstd::string::StringSliceAdditionalSpecFns;

verus! {

/// Bytes that percent-encoding leaves as they are: ASCII letters, digits,
/// and `-`, `.`, `_`, `~`.
pub open spec fn url_unreserved(b: u8) -> bool {
    ||| 0x30 <= b <= 0x39
    ||| 0x41 <= b <= 0x5a
    ||| 0x61 <= b <= 0x7a
    ||| b == 0x2d
    ||| b == 0x2e
    ||| b == 0x5f
    ||| b == 0x7e
}

/// Upper-case hexadecimal digit of a value below 16.
pub open spec fn hex_upper(d: u8) -> char {
    if d < 10 {
        ((0x30 + d) as u8) as char
    } else {
        ((0x41 + d - 10) as u8) as char
    }
}

/// Percent-encoding of a byte string: each unreserved byte stands for
/// itself, every other byte becomes `%` and two upper-case hex digits.
pub open spec fn percent_encoded(bytes: Seq<u8>) -> Seq<char>
    decreases bytes.len(),
{
    if bytes.len() == 0 {
        seq![]
    } else {
        let b = bytes[0];
        (if url_unreserved(b) {
            seq![b as char]
        } else {
            seq!['%', hex_upper(b / 16), hex_upper(b % 16)]
        }) + percent_encoded(bytes.drop_first())
    }
}

/// `urlencoding::encode`: percent-encodes the UTF-8 bytes of `s`, keeping
/// ASCII alphanumerics and `-`, `_`, `.`, `~`, writing every other byte as
/// `%` followed by two upper-case hex digits.
#[verifier::external_body]
pub(crate) fn url_encode(s: &str) -> (r: String)
    ensures
        r@ == percent_encoded(s.spec_bytes()),
{
    urlencoding::encode(s).into_owned()
}

/// The root of the measurement service.
pub open spec fn api_base() -> Seq<char> {
    "https://api.spinorama.org"@
}

/// The address listing every speaker.
pub fn speakers_url() -> (url: String)
    ensures
        url@ == api_base() + "/v1/speakers"@,
{
    let mut url = String::new();
    url.append("https://api.spinorama.org");
    url.append("/v1/speakers");
    url
}

/// The address listing the versions of a speaker.
pub fn versions_url(speaker: &str) -> (url: String)
    ensures
        url@ == api_base() + "/v1/speaker/"@ + percent_encoded(speaker.spec_bytes())
            + "/versions"@,
{
    let enc = url_encode(speaker);
    let mut url = String::new();
    url.append("https://api.spinorama.org");
    url.append("/v1/speaker/");
    url.append(enc.as_str());
    url.append("/versions");
    url
}

/// The address listing the measurements of one version of a speaker.
pub fn measurements_url(speaker: &str, version: &str) -> (url: String)
    ensures
        url@ == api_base() + "/v1/speaker/"@ + percent_encoded(speaker.spec_bytes())
            + "/version/"@ + percent_encoded(version.spec_bytes()) + "/measurements"@,
{
    let enc_s = url_encode(speaker);
    let enc_v = url_encode(version);
    let mut url = String::new();
    url.append("https://api.spinorama.org");
    url.append("/v1/speaker/");
    url.append(enc_s.as_str());
    url.append("/version/");
    url.append(enc_v.as_str());
    url.append("/measurements");
    url
}

/// The address of the metadata of a speaker.
pub fn metadata_url(speaker: &str) -> (url: String)
    ensures
        url@ == api_base() + "/v1/speaker/"@ + percent_encoded(speaker.spec_bytes())
            + "/metadata"@,
{
    let enc = url_encode(speaker);
    let mut url = String::new();
    url.append("https://api.spinorama.org");
    url.append("/v1/speaker/");
    url.append(enc.as_str());
    url.append("/metadata");
    url
}

/// The address of one measurement of one version of a speaker.
pub fn measurement_url(speaker: &str, version: &str, measurement: &str) -> (url: String)
    ensures
        url@ == api_base() + "/v1/speaker/"@ + percent_encoded(speaker.spec_bytes())
            + "/version/"@ + percent_encoded(version.spec_bytes()) + "/measurements/"@
            + percent_encoded(measurement.spec_bytes()),
{
    let enc_m = url_encode(measurement);
    let mut url = measurements_url(speaker, version);
    url.append("/");
    url.append(enc_m.as_str());
    proof {
        assert("/measurements"@ + "/"@ =~= "/measurements/"@) by {
            reveal_strlit("/measurements");
            reveal_strlit("/");
            reveal_strlit("/measurements/");
        }
    }
    url
}

/// The address of one measurement in Plotly JSON form, as the measurement
/// cache fetches it.
pub fn measurement_json_url(speaker: &str, version: &str, measurement: &str) -> (url: String)
    ensures
        url@ == api_base() + "/v1/speaker/"@ + percent_encoded(speaker.spec_bytes())
            + "/version/"@ + percent_encoded(version.spec_bytes()) + "/measurements/"@
            + percent_encoded(measurement.spec_bytes()) + "?measurement_format=json"@,
{
    let mut url = measurement_url(speaker, version, measurement);
    url.append("?measurement_format=json");
    url
}

} // verus!
