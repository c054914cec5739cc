use autoeq::score::first_consecutive_run;
use autoeq::spinorama::{
    cea2034_url, check_reply_status, curve_url, speaker_list_url, speaker_measurements_url,
    MeasurementInfo, SpeakerInfo,
};

#[test]
fn service_addresses() {
    assert_eq!(speaker_list_url(), "https://api.spinorama.org/speakers");
    assert_eq!(
        speaker_measurements_url("KEF", "R3"),
        "https://api.spinorama.org/speakers/KEF/R3/measurements"
    );
    assert_eq!(
        cea2034_url("KEF", "R3", "asr"),
        "https://api.spinorama.org/speakers/KEF/R3/measurements/asr/cea2034"
    );
    assert_eq!(
        curve_url("KEF", "R3", "asr", "On Axis"),
        "https://api.spinorama.org/speakers/KEF/R3/measurements/asr/curves/On Axis"
    );
    assert_eq!(check_reply_status(true, "200 OK"), Ok(()));
    assert_eq!(
        check_reply_status(false, "404 Not Found"),
        Err("API returned error: 404 Not Found".to_string())
    );
    let s = SpeakerInfo { brand: "KEF".to_string(), model: "R3".to_string(), version: None };
    let m = MeasurementInfo {
        measurement_id: "asr".to_string(),
        measurement_type: "CEA2034".to_string(),
        reviewer: "asr".to_string(),
    };
    assert_eq!(s.clone(), s);
    assert_eq!(m.clone(), m);
}

#[test]
fn first_run_of_consecutive_positions() {
    let v = vec![(3usize, 'a'), (4, 'b'), (5, 'c'), (7, 'd'), (8, 'e')];
    assert_eq!(first_consecutive_run(&v), vec![(3, 'a'), (4, 'b'), (5, 'c')]);
    assert_eq!(first_consecutive_run(&vec![(2usize, 0.5f64)]), vec![(2, 0.5)]);
    let empty: Vec<(usize, u8)> = vec![];
    assert!(first_consecutive_run(&empty).is_empty());
}
