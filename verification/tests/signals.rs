use autoeq::signals::{
    channel_count_allowed, check_bit_depths, check_nyquist, id_frequencies, signals_to_generate,
    wav_filename, GenerationStats, SignalKind,
};

#[test]
fn signal_names_and_order() {
    let all = SignalKind::all();
    let names: Vec<&str> = all.iter().map(|s| s.as_str()).collect();
    assert_eq!(names, vec!["id", "thd1k", "thd100", "imd_smpte", "imd_ccif", "sweep"]);
    assert_eq!(signals_to_generate(&vec![]).len(), 6);
    assert_eq!(signals_to_generate(&vec![SignalKind::Sweep]), vec![SignalKind::Sweep]);
}

#[test]
fn nyquist_limits() {
    assert!(check_nyquist(SignalKind::ImdCcif, 2, 44100).is_ok());
    assert_eq!(
        check_nyquist(SignalKind::ImdCcif, 2, 40000),
        Err("Nyquist violation: 20 kHz >= 20000 Hz (skipped)".to_string())
    );
    assert_eq!(
        check_nyquist(SignalKind::Sweep, 2, 22051),
        Err("Nyquist violation: sweep end 20 kHz >= 11025.5 Hz (skipped)".to_string())
    );
    assert_eq!(
        check_nyquist(SignalKind::Id, 16, 8000),
        Err("Nyquist violation: max ID freq 4800 Hz >= 4000 Hz (skipped)".to_string())
    );
    assert!(check_nyquist(SignalKind::Id, 16, 9601).is_ok());
    assert!(check_nyquist(SignalKind::Thd1k, 1, 2001).is_ok());
    assert!(check_nyquist(SignalKind::Thd1k, 1, 2000).is_err());
}

#[test]
fn identification_tones() {
    assert_eq!(id_frequencies(3), vec![300, 600, 900]);
    let many = id_frequencies(25);
    assert_eq!(many[19], 6000);
    assert_eq!(many[24], 6000);
}

#[test]
fn file_names_and_checks() {
    assert_eq!(wav_filename(SignalKind::Thd1k, 2, 44100, 16), "thd1k_ch2_sr44100_b16.wav");
    assert!(check_bit_depths(&vec![16, 24]).is_ok());
    assert_eq!(
        check_bit_depths(&vec![16, 20, 8]),
        Err("Bit depth must be 16 or 24, got 20".to_string())
    );
    assert!(channel_count_allowed(1));
    assert!(channel_count_allowed(16));
    assert!(!channel_count_allowed(0));
    assert!(!channel_count_allowed(17));
}

#[test]
fn tally_counts_each_outcome_once() {
    let mut s = GenerationStats::new();
    s.record_generated();
    s.record_skipped();
    s.record_error("Nyquist violation: 100 Hz >= 50 Hz (skipped)");
    s.record_error("Failed to create WAV writer: denied");
    assert_eq!(s.generated, 1);
    assert_eq!(s.skipped, 2);
    assert_eq!(s.failed, 1);
    let mut t = GenerationStats::new();
    let m = check_nyquist(SignalKind::Thd100, 1, 100).unwrap_err();
    t.record_error(&m);
    assert_eq!(t.skipped, 1);
}
