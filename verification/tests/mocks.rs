#[test]
fn tests_test_mock_get_speakers() {
    assert!(true);
}

#[test]
fn tests_test_mock_get_speaker_versions() {
    assert!(true);
}

#[test]
fn tests_test_mock_get_speaker_versions_empty_speaker() {
    assert!(true);
}

#[test]
fn tests_test_mock_get_speaker_measurements() {
    assert!(true);
}

#[test]
fn tests_test_mock_get_speaker_measurements_empty_params() {
    assert!(true);
}
