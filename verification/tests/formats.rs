use autoeq::decoder::{
    first_audio_track, probed_channels, FlacDecoder, PacketOutcome, ReadStep, StreamCursor,
    SymphoniaDecoder, TrackParams,
};
use autoeq::formats::{AudioDecoderError, AudioFormat};

#[test]
fn test_format_detection() {
    assert_eq!(AudioFormat::from_path("test.flac").unwrap(), AudioFormat::Flac);
    assert_eq!(AudioFormat::from_path("test.FLAC").unwrap(), AudioFormat::Flac);
    assert_eq!(AudioFormat::from_path("path/to/music.flac").unwrap(), AudioFormat::Flac);
    assert!(AudioFormat::from_path("test.mp3").is_err());
    assert!(AudioFormat::from_path("test").is_err());
}

#[test]
fn test_format_properties() {
    let flac = AudioFormat::Flac;
    assert_eq!(flac.as_str(), "FLAC");
    assert_eq!(flac.extension(), "flac");
    assert!(flac.is_lossless());
}

#[test]
fn test_supported_formats() {
    let formats = AudioFormat::supported_formats();
    assert!(!formats.is_empty());
    assert!(formats.contains(&AudioFormat::Flac));
    let formats_string = AudioFormat::supported_formats_string();
    assert!(formats_string.contains("FLAC"));
}

#[test]
fn test_flac_decoder_format() {
    assert_eq!(AudioFormat::Flac.as_str(), "FLAC");
    assert!(AudioFormat::Flac.is_lossless());
}

#[test]
fn test_symphonia_decoder_format_detection() {
    assert_eq!(AudioFormat::Flac.as_str(), "FLAC");
    assert_eq!(AudioFormat::Mp3.as_str(), "MP3");
    assert_eq!(AudioFormat::Aac.as_str(), "AAC");
    assert_eq!(AudioFormat::Wav.as_str(), "WAV");
    assert_eq!(AudioFormat::Vorbis.as_str(), "Vorbis");
    assert_eq!(AudioFormat::Aiff.as_str(), "AIFF");
}

#[test]
fn extension_errors_name_the_lowercased_extension() {
    assert_eq!(
        AudioFormat::from_path("song.MP3"),
        Err(AudioDecoderError::UnsupportedFormat("Unsupported file extension: mp3".to_string()))
    );
    assert_eq!(
        AudioFormat::from_extension(None),
        Err(AudioDecoderError::UnsupportedFormat("No file extension found".to_string()))
    );
    assert_eq!(AudioFormat::from_extension(Some("FlAc")), Ok(AudioFormat::Flac));
}

#[test]
fn unicode_extension_is_lowercased() {
    assert_eq!(
        AudioFormat::from_extension(Some("ÄIFF")),
        Err(AudioDecoderError::UnsupportedFormat("Unsupported file extension: äiff".to_string()))
    );
}

#[test]
fn every_supported_format_is_detected_from_its_extension() {
    for f in AudioFormat::supported_formats() {
        let name = format!("x.{}", f.extension());
        assert_eq!(AudioFormat::from_path(&name), Ok(f));
    }
}

#[test]
fn extensions_and_losslessness_of_other_formats() {
    assert_eq!(AudioFormat::Mp3.extension(), "mp3");
    assert_eq!(AudioFormat::Vorbis.extension(), "ogg");
    assert!(!AudioFormat::Mp3.is_lossless());
    assert!(AudioFormat::Wav.is_lossless());
    assert!(AudioFormat::Aiff.is_lossless());
    assert_eq!(AudioFormat::Flac.to_string(), "FLAC");
    assert_eq!(AudioFormat::supported_formats_string(), "FLAC");
}

fn track(id: u32, has_codec: bool) -> TrackParams {
    TrackParams {
        id,
        has_codec,
        sample_rate: Some(44100),
        channel_count: Some(2),
        bits_per_sample: None,
        n_frames: Some(1000),
    }
}

#[test]
fn first_track_with_a_codec_is_chosen() {
    let tracks = vec![track(7, false), track(8, true), track(9, true)];
    assert_eq!(first_audio_track(&tracks), Ok(1));
    let none = vec![track(1, false)];
    assert_eq!(
        first_audio_track(&none),
        Err(AudioDecoderError::InvalidFile("No valid audio track found".to_string()))
    );
}

#[test]
fn flac_decoder_starts_on_a_complete_track() {
    let d = FlacDecoder::from_track(&track(3, true)).unwrap();
    assert_eq!(d.spec().sample_rate, 44100);
    assert_eq!(d.spec().channels, 2);
    assert_eq!(d.spec().bits_per_sample, 16);
    assert_eq!(d.spec().total_frames, Some(1000));
    assert_eq!(d.position(), 0);
    assert!(!d.is_eof());
    assert_eq!(d.buffer_frames, 4096);
    assert_eq!(d.format(), AudioFormat::Flac);
    let mut d = d;
    d.set_buffer_frames(512);
    assert_eq!(d.buffer_frames, 512);
}

#[test]
fn flac_decoder_needs_rate_and_channels() {
    let mut t = track(1, true);
    t.sample_rate = None;
    assert_eq!(
        FlacDecoder::from_track(&t).err(),
        Some(AudioDecoderError::InvalidFile("No sample rate found".to_string()))
    );
    let mut t = track(1, true);
    t.channel_count = None;
    assert_eq!(
        FlacDecoder::from_track(&t).err(),
        Some(AudioDecoderError::InvalidFile("No channel information found".to_string()))
    );
}

#[test]
fn bit_depth_keeps_low_bits() {
    let mut t = track(1, true);
    t.bits_per_sample = Some(65536 + 24);
    assert_eq!(FlacDecoder::from_track(&t).unwrap().spec().bits_per_sample, 24);
}

#[test]
fn cursor_follows_reads_decodes_and_seeks() {
    let mut c = StreamCursor::start(5);
    assert!(c.wants_packet());
    assert_eq!(c.on_read(PacketOutcome::Packet { track_id: 4 }), ReadStep::Skip);
    assert_eq!(c.on_read(PacketOutcome::Packet { track_id: 5 }), ReadStep::Decode);
    assert_eq!(c.on_decoded(1152), 0);
    assert_eq!(c.on_decoded(1152), 1152);
    assert_eq!(c.position, 2304);
    assert_eq!(c.on_read(PacketOutcome::EndOfStream), ReadStep::Finished);
    assert!(!c.wants_packet());
    c.on_seek(100);
    assert!(c.wants_packet());
    assert_eq!(c.position, 100);
    let e = AudioDecoderError::Io("broken".to_string());
    assert_eq!(c.on_read(PacketOutcome::Failed(e.clone())), ReadStep::Fail(e));
    assert!(c.eof);
}

#[test]
fn symphonia_decoder_uses_probed_channels_and_extension() {
    let mut t = track(2, true);
    t.channel_count = None;
    let d = SymphoniaDecoder::from_track("a/b/song.flac", &t, Some(6)).unwrap();
    assert_eq!(d.spec().channels, 6);
    assert_eq!(d.format(), AudioFormat::Flac);
    assert_eq!(d.position(), 0);
    assert!(!d.is_eof());
    assert_eq!(
        SymphoniaDecoder::from_track_with_extension(Some("flac"), &t, None).err(),
        Some(AudioDecoderError::InvalidFile(
            "No channel information found even after decoding first packet".to_string()
        ))
    );
    assert_eq!(
        SymphoniaDecoder::from_track_with_extension(Some("xyz"), &track(2, true), None).err(),
        Some(AudioDecoderError::UnsupportedFormat("Unsupported file extension: xyz".to_string()))
    );
}

#[test]
fn symphonia_decoder_starts_on_every_readable_format() {
    let cases = [
        ("song.mp3", AudioFormat::Mp3),
        ("song.WAV", AudioFormat::Wav),
        ("song.ogg", AudioFormat::Vorbis),
        ("song.m4a", AudioFormat::Aac),
        ("song.MP4", AudioFormat::Aac),
        ("song.aac", AudioFormat::Aac),
        ("song.aiff", AudioFormat::Aiff),
        ("song.Flac", AudioFormat::Flac),
    ];
    for (path, f) in cases {
        let d = SymphoniaDecoder::from_track(path, &track(2, true), None).unwrap();
        assert_eq!(d.format(), f);
        assert_eq!(d.position(), 0);
        assert!(!d.is_eof());
    }
    assert_eq!(AudioFormat::decodable_from_extension(Some("Mp3")), Ok(AudioFormat::Mp3));
    assert_eq!(
        AudioFormat::decodable_from_extension(None),
        Err(AudioDecoderError::UnsupportedFormat("No file extension found".to_string()))
    );
    assert!(AudioFormat::from_path("song.mp3").is_err());
}

#[test]
fn first_packet_gives_channels_only_for_the_track() {
    assert_eq!(probed_channels(3, Some((3, Some(2)))), Ok(2));
    assert!(probed_channels(3, Some((4, Some(2)))).is_err());
    assert!(probed_channels(3, Some((3, None))).is_err());
    assert!(probed_channels(3, None).is_err());
}

#[test]
fn extension_is_taken_from_the_last_component() {
    assert_eq!(AudioFormat::from_path("a.b.flac"), Ok(AudioFormat::Flac));
    assert_eq!(AudioFormat::from_path("./music/track.Flac"), Ok(AudioFormat::Flac));
    assert_eq!(
        AudioFormat::from_path(".flac"),
        Err(AudioDecoderError::UnsupportedFormat("No file extension found".to_string()))
    );
    assert_eq!(
        AudioFormat::from_path("album.flac/track"),
        Err(AudioDecoderError::UnsupportedFormat("No file extension found".to_string()))
    );
    assert_eq!(
        AudioFormat::from_path("dir/.hidden.WAV"),
        Err(AudioDecoderError::UnsupportedFormat("Unsupported file extension: wav".to_string()))
    );
}
