use autoeq::playback::{
    buffer_plan, filter_fields, loudness_values, monitor_step, split_fields, StreamingState,
};

#[test]
fn filters_have_three_fields() {
    assert_eq!(
        filter_fields("1000:1.5:-3"),
        Ok(("1000".to_string(), "1.5".to_string(), "-3".to_string()))
    );
    assert_eq!(
        filter_fields("1000:1.5"),
        Err("Invalid filter format '1000:1.5'. Expected 'freq:q:gain'".to_string())
    );
    assert!(filter_fields("1:2:3:4").is_err());
    assert_eq!(filter_fields("::"), Ok((String::new(), String::new(), String::new())));
}

#[test]
fn split_then_join_gives_the_text_back() {
    for s in ["", "a", ":", "a::b", "x:y:z:"] {
        let parts = split_fields(s, ':');
        assert_eq!(parts.join(":"), s);
        let std_parts: Vec<String> = s.split(':').map(|p| p.to_string()).collect();
        assert_eq!(parts, std_parts);
    }
}

#[test]
fn loudness_values_take_two_or_three() {
    assert_eq!(loudness_values(&vec![80.0, 3.0]), Ok((80.0, 3.0, 3.0)));
    assert_eq!(loudness_values(&vec![80.0, 3.0, 1.0]), Ok((80.0, 3.0, 1.0)));
    assert_eq!(
        loudness_values(&vec![80.0]),
        Err("Expected 2 or 3 values: REF,LOW[,HIGH]".to_string())
    );
}

#[test]
fn buffer_is_clamped() {
    assert_eq!(buffer_plan(8), (32, 32768));
    assert_eq!(buffer_plan(128), (128, 131072));
    assert_eq!(buffer_plan(4096), (1024, 1048576));
}

#[test]
fn monitoring_stops_on_idle_error_or_timeout() {
    let s = monitor_step(StreamingState::Idle, StreamingState::Playing, 0, 0);
    assert_eq!(s.announce, Some(StreamingState::Playing));
    assert!(!s.ended);
    assert_eq!(s.last, StreamingState::Playing);
    let s = monitor_step(StreamingState::Playing, StreamingState::Idle, 5, 0);
    assert!(s.ended && s.finished_playing);
    let s = monitor_step(StreamingState::Playing, StreamingState::Error, 5, 0);
    assert!(s.ended && !s.finished_playing);
    let s = monitor_step(StreamingState::Playing, StreamingState::Playing, 10, 10);
    assert!(s.timed_out && !s.ended);
    assert_eq!(s.announce, None);
}
