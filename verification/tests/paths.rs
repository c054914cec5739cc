use autoeq::api::{measurement_json_url, measurements_url, speakers_url, versions_url};
use autoeq::cache;
use autoeq::download::{data_dir_for, first_version, sanitize_dir_component, speaker_downloads};

#[test]
fn sanitize_replaces_forbidden() {
    assert_eq!(sanitize_dir_component("A/B\\C|D?E*F: G"), "A_B_C_D_E_F_ G");
}

#[test]
fn data_dir_builds_expected_path() {
    let p = data_dir_for("KEF LS50 Meta");
    assert!(p.ends_with("data/KEF LS50 Meta"));
}

#[test]
fn cache_names_are_sanitized() {
    assert_eq!(cache::sanitize_dir_name("  KEF/LS50 (Meta)__ "), "KEF_LS50 _Meta");
    assert_eq!(cache::sanitize_dir_name("_ KEF _"), " KEF ");
    assert_eq!(cache::measurement_filename("a/b\\c"), "a-b-c.json");
    assert_eq!(cache::data_dir_for("Genelec 8361A"), "data_cached/Genelec 8361A");
}

#[test]
fn urls_percent_encode_their_parts() {
    assert_eq!(speakers_url(), "https://api.spinorama.org/v1/speakers");
    assert_eq!(
        versions_url("KEF LS50"),
        "https://api.spinorama.org/v1/speaker/KEF%20LS50/versions"
    );
    assert_eq!(
        measurements_url("A&B", "v1.0"),
        "https://api.spinorama.org/v1/speaker/A%26B/version/v1.0/measurements"
    );
    assert_eq!(
        measurement_json_url("KEF", "asr", "Estimated In-Room Response"),
        "https://api.spinorama.org/v1/speaker/KEF/version/asr/measurements/Estimated%20In-Room%20Response?measurement_format=json"
    );
}

#[test]
fn downloads_need_a_cea2034_measurement() {
    let none = speaker_downloads("KEF", "v", &vec!["On Axis".to_string()]);
    assert!(none.is_empty());
    let t = speaker_downloads("KEF", "v", &vec!["On Axis".to_string(), "CEA2034".to_string()]);
    assert_eq!(t.len(), 3);
    assert_eq!(t[0].file_name, "metadata.json");
    assert_eq!(t[1].url, "https://api.spinorama.org/v1/speaker/KEF/version/v/measurements/CEA2034");
    assert_eq!(t[2].file_name, "Estimated In-Room Response.json");
    assert_eq!(first_version(&vec!["b".to_string(), "a".to_string()]), Some("b".to_string()));
    assert_eq!(first_version(&vec![]), None);
}

#[test]
fn sanitized_names_are_safe() {
    for name in ["  a/b\\c:d|e?f*  ", "\t x ", "///", "_-_ (ok) _-_"] {
        let d = sanitize_dir_component(name);
        assert!(!d.chars().any(|c| "/\\:|?*".contains(c)));
        assert!(!d.starts_with(char::is_whitespace) && !d.ends_with(char::is_whitespace));
        let c = cache::sanitize_dir_name(name);
        assert!(c.chars().all(|ch| ch.is_ascii_alphanumeric() || ch == ' ' || ch == '-' || ch == '_'));
        assert!(!c.starts_with('_') && !c.ends_with('_'));
        let f = cache::measurement_filename(name);
        assert!(!f.contains('/') && !f.contains('\\'));
    }
}
