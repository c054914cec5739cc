use autoeq::audio::{
    config_supported, describe_device, find_device, format_to_string, input_configs,
    output_configs, select_device_config, AudioConfig, AudioState, ConfigRange, SampleFormat,
};

fn range(min: u32, max: u32, channels: u16, f: SampleFormat) -> ConfigRange {
    ConfigRange { min_sample_rate: min, max_sample_rate: max, channels, sample_format: f }
}

fn cfg(sample_rate: u32, channels: u16, fmt: &str) -> AudioConfig {
    AudioConfig { sample_rate, channels, buffer_size: None, sample_format: fmt.to_string() }
}

#[test]
fn sample_format_names() {
    assert_eq!(format_to_string(SampleFormat::F32), "f32");
    assert_eq!(format_to_string(SampleFormat::I16), "i16");
    assert_eq!(format_to_string(SampleFormat::U16), "u16");
    assert_eq!(format_to_string(SampleFormat::I32), "unknown");
}

#[test]
fn input_ranges_offer_mono_and_stereo_at_both_extremes() {
    let v = input_configs(&vec![range(8000, 48000, 4, SampleFormat::F32)]);
    assert_eq!(
        v,
        vec![cfg(8000, 1, "f32"), cfg(8000, 2, "f32"), cfg(48000, 1, "f32"), cfg(48000, 2, "f32")]
    );
    let mono = input_configs(&vec![range(16000, 16000, 1, SampleFormat::I16)]);
    assert_eq!(mono, vec![cfg(16000, 1, "i16"), cfg(16000, 1, "i16")]);
}

#[test]
fn output_ranges_offer_common_rates_once() {
    let v = output_configs(&vec![range(44100, 48000, 2, SampleFormat::F32)]);
    assert_eq!(
        v,
        vec![cfg(44100, 1, "f32"), cfg(44100, 2, "f32"), cfg(48000, 1, "f32"), cfg(48000, 2, "f32")]
    );
    let two = output_configs(&vec![
        range(44100, 44100, 1, SampleFormat::I16),
        range(44100, 44100, 1, SampleFormat::I16),
    ]);
    assert_eq!(two, vec![cfg(44100, 1, "i16")]);
}

#[test]
fn every_offered_output_config_is_supported() {
    let ranges = vec![range(22050, 96000, 6, SampleFormat::F32), range(8000, 8000, 1, SampleFormat::I16)];
    let offered = output_configs(&ranges);
    assert!(!offered.is_empty());
    for c in &offered {
        assert!(config_supported(c, &ranges));
    }
    for (i, a) in offered.iter().enumerate() {
        for b in offered.iter().skip(i + 1) {
            assert!(a != b);
        }
    }
}

#[test]
fn unsupported_configuration_is_refused_and_state_kept() {
    let ranges = vec![range(44100, 48000, 2, SampleFormat::F32)];
    let mut state = AudioState::default();
    let r = select_device_config(&mut state, "Speakers".to_string(), false, cfg(96000, 2, "f32"), &ranges);
    assert_eq!(
        r,
        Err("Configuration not supported by device 'Speakers': sample_rate=96000, channels=2, format=f32".to_string())
    );
    assert!(state.output_config.is_none());
    assert!(state.selected_output_device.is_none());
}

#[test]
fn supported_configuration_is_stored_for_its_direction() {
    let ranges = vec![range(44100, 48000, 2, SampleFormat::F32)];
    let mut state = AudioState::default();
    let r = select_device_config(&mut state, "Mic".to_string(), true, cfg(48000, 1, "f32"), &ranges);
    assert_eq!(
        r,
        Ok("Successfully configured input device 'Mic' with sample_rate=48000, channels=1, format=f32".to_string())
    );
    assert_eq!(state.selected_input_device, Some("Mic".to_string()));
    assert_eq!(state.input_config, Some(cfg(48000, 1, "f32")));
    assert!(state.output_config.is_none());
    let wrong_format = cfg(48000, 1, "i16");
    assert!(!config_supported(&wrong_format, &ranges));
}

#[test]
fn devices_are_found_by_name() {
    let names = vec![None, Some("A".to_string()), Some("B".to_string())];
    assert_eq!(find_device(&names, "B"), Ok(2));
    assert_eq!(find_device(&names, "C"), Err("Device 'C' not found".to_string()));
}

#[test]
fn device_description() {
    let d = describe_device(
        "Out".to_string(),
        false,
        &Some("Out".to_string()),
        &vec![range(48000, 48000, 2, SampleFormat::F32)],
        None,
    );
    assert!(d.is_default);
    assert!(!d.is_input);
    assert_eq!(d.supported_configs, vec![cfg(48000, 1, "f32"), cfg(48000, 2, "f32")]);
    let other = describe_device("In".to_string(), true, &Some("Out".to_string()), &vec![], None);
    assert!(!other.is_default);
    assert!(other.supported_configs.is_empty());
}

#[test]
fn every_offered_input_config_is_supported() {
    let ranges = vec![range(8000, 48000, 2, SampleFormat::I16), range(44100, 96000, 8, SampleFormat::F32)];
    for c in input_configs(&ranges) {
        assert!(config_supported(&c, &ranges));
    }
}
