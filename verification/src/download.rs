//! Decisions of the bulk downloader of speaker measurements.
use vstd::prelude::*;
use vstd::string::StringSliceAdditionalSpecFns;
use crate::api::{measurement_url, metadata_url, percent_encoded, api_base};
use crate::text::{
    chars_of, is_white_space, lemma_trim_props, str_eq, string_from_chars, trim_by, trim_chars,
    white_space_pred, TrimClass,
};

verus! {

/// Characters that cannot stand in a directory name on common systems.
pub open spec fn forbidden_in_dir(c: char) -> bool {
    c == '/' || c == '\\' || c == ':' || c == '|' || c == '?' || c == '*'
}

/// A directory component made from a speaker name: forbidden characters
/// become `_`, then white space is trimmed from both ends.
pub open spec fn dir_component(name: Seq<char>) -> Seq<char> {
    trim_by(name.map_values(|c: char| if forbidden_in_dir(c) { '_' } else { c }), white_space_pred())
}

/// A directory component holds none of the forbidden characters, and
/// neither starts nor ends with white space.
pub proof fn lemma_dir_component_is_safe(name: Seq<char>)
    ensures
        forall|k: int| 0 <= k < dir_component(name).len() ==> !forbidden_in_dir(
            #[trigger] dir_component(name)[k],
        ),
        dir_component(name).len() > 0 ==> !is_white_space(dir_component(name)[0])
            && !is_white_space(dir_component(name).last()),
{
    let mapped = name.map_values(|c: char| if forbidden_in_dir(c) { '_' } else { c });
    lemma_trim_props(mapped, white_space_pred());
    assert forall|k: int| 0 <= k < dir_component(name).len() implies !forbidden_in_dir(
        #[trigger] dir_component(name)[k],
    ) by {
        let x = dir_component(name)[k];
        let j = choose|j: int| 0 <= j < mapped.len() && mapped[j] == x;
    }
}

/// Replaces `/ \ : | ? *` by `_` and trims white space.
pub fn sanitize_dir_component(name: &str) -> (out: String)
    ensures
        out@ == dir_component(name@),
{
    let chars = chars_of(name);
    let mut mapped: Vec<char> = Vec::new();
    let mut i: usize = 0;
    while i < chars.len()
        invariant
            0 <= i <= chars.len(),
            chars@ == name@,
            mapped@ == chars@.take(i as int).map_values(
                |c: char| if forbidden_in_dir(c) { '_' } else { c },
            ),
        decreases chars.len() - i,
    {
        let c = chars[i];
        if c == '/' || c == '\\' || c == ':' || c == '|' || c == '?' || c == '*' {
            mapped.push('_');
        } else {
            mapped.push(c);
        }
        i = i + 1;
        assert(mapped@ =~= chars@.take(i as int).map_values(
            |c: char| if forbidden_in_dir(c) { '_' } else { c },
        ));
    }
    assert(chars@.take(chars@.len() as int) =~= chars@);
    let trimmed = trim_chars(&mapped, TrimClass::WhiteSpace);
    string_from_chars(&trimmed)
}

/// The directory where a speaker's downloads are saved: `data/` followed by
/// the sanitized speaker name.
pub fn data_dir_for(speaker: &str) -> (dir: String)
    ensures
        dir@ == "data/"@ + dir_component(speaker@),
{
    let mut dir = String::new();
    dir.append("data/");
    let name = sanitize_dir_component(speaker);
    dir.append(name.as_str());
    dir
}

/// The version whose measurements are downloaded: the first one listed.
pub fn first_version(versions: &Vec<String>) -> (v: Option<String>)
    ensures
        versions@.len() == 0 ==> v is None,
        versions@.len() > 0 ==> v == Some(versions@[0]),
{
    if versions.len() == 0 {
        None
    } else {
        Some(versions[0].clone())
    }
}

/// Whether `name` occurs among `items`.
pub fn contains_name(items: &Vec<String>, name: &str) -> (b: bool)
    ensures
        b == exists|i: int| 0 <= i < items@.len() && #[trigger] items@[i]@ == name@,
{
    let mut i: usize = 0;
    while i < items.len()
        invariant
            0 <= i <= items.len(),
            forall|j: int| 0 <= j < i ==> #[trigger] items@[j]@ != name@,
        decreases items.len() - i,
    {
        if str_eq(items[i].as_str(), name) {
            return true;
        }
        i = i + 1;
    }
    false
}

/// One file to fetch: where from, and under which name it is saved in the
/// speaker's directory.
pub struct DownloadTarget {
    /// Address of the file.
    pub url: String,
    /// Name of the saved copy.
    pub file_name: String,
}

/// The files saved for one version of a speaker: nothing unless a
/// `CEA2034` measurement is listed; then the speaker metadata, the
/// `CEA2034` measurement and the `Estimated In-Room Response`, in that order.
pub fn speaker_downloads(speaker: &str, version: &str, measurements: &Vec<String>) -> (t: Vec<
    DownloadTarget,
>)
    ensures
        !(exists|i: int| 0 <= i < measurements@.len() && #[trigger] measurements@[i]@ == "CEA2034"@)
            ==> t@.len() == 0,
        (exists|i: int| 0 <= i < measurements@.len() && #[trigger] measurements@[i]@ == "CEA2034"@)
            ==> {
            &&& t@.len() == 3
            &&& t@[0].url@ == api_base() + "/v1/speaker/"@ + percent_encoded(speaker.spec_bytes())
                + "/metadata"@
            &&& t@[0].file_name@ == "metadata.json"@
            &&& t@[1].url@ == api_base() + "/v1/speaker/"@ + percent_encoded(speaker.spec_bytes())
                + "/version/"@ + percent_encoded(version.spec_bytes()) + "/measurements/"@
                + percent_encoded("CEA2034".spec_bytes())
            &&& t@[1].file_name@ == "CEA2034.json"@
            &&& t@[2].url@ == api_base() + "/v1/speaker/"@ + percent_encoded(speaker.spec_bytes())
                + "/version/"@ + percent_encoded(version.spec_bytes()) + "/measurements/"@
                + percent_encoded("Estimated In-Room Response".spec_bytes())
            &&& t@[2].file_name@ == "Estimated In-Room Response.json"@
        },
{
    let mut t: Vec<DownloadTarget> = Vec::new();
    if !contains_name(measurements, "CEA2034") {
        return t;
    }
    let mut f0 = String::new();
    f0.append("metadata.json");
    t.push(DownloadTarget { url: metadata_url(speaker), file_name: f0 });
    let mut f1 = String::new();
    f1.append("CEA2034.json");
    t.push(DownloadTarget { url: measurement_url(speaker, version, "CEA2034"), file_name: f1 });
    let mut f2 = String::new();
    f2.append("Estimated In-Room Response.json");
    t.push(
        DownloadTarget {
            url: measurement_url(speaker, version, "Estimated In-Room Response"),
            file_name: f2,
        },
    );
    t
}

} // verus!
