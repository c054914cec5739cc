//! The bookkeeping of the audio decoders: which track is decoded, what its
//! stream looks like, and where the decoder stands in it. Reading packets
//! and decoding them is done by the caller, who reports each outcome here.
use vstd::prelude::*;
use crate::formats::{
    decodable_detection_matches, extension_of, path_extension, portable_path, AudioDecoderError, AudioFormat,
};

verus! {

/// The shape of a decoded stream.
#[derive(PartialEq, Eq, Structural, Clone, Copy, Debug)]
pub struct AudioSpec {
    /// Frames per second.
    pub sample_rate: u32,
    /// Number of interleaved channels.
    pub channels: u16,
    /// Bits per sample of the source.
    pub bits_per_sample: u16,
    /// Length of the stream in frames, when the container tells it.
    pub total_frames: Option<u64>,
}

/// What a container reports about one of its tracks.
#[derive(PartialEq, Eq, Structural, Clone, Copy, Debug)]
pub struct TrackParams {
    /// Identifier of the track within the container.
    pub id: u32,
    /// Whether the track names a codec at all.
    pub has_codec: bool,
    /// Frames per second, when known.
    pub sample_rate: Option<u32>,
    /// Number of channels of the channel layout, when known.
    pub channel_count: Option<u32>,
    /// Bits per sample, when known.
    pub bits_per_sample: Option<u32>,
    /// Length in frames, when known.
    pub n_frames: Option<u64>,
}

/// The first track at or after `i` that names a codec.
pub open spec fn first_audio_track_from(tracks: Seq<TrackParams>, i: int) -> Option<int>
    decreases tracks.len() - i,
{
    if i < 0 || i >= tracks.len() {
        None
    } else if tracks[i].has_codec {
        Some(i)
    } else {
        first_audio_track_from(tracks, i + 1)
    }
}

fn message(text: &str) -> (s: String)
    ensures
        s@ == text@,
{
    let mut s = String::new();
    s.append(text);
    s
}

/// Picks the track to decode: the first one that names a codec.
pub fn first_audio_track(tracks: &Vec<TrackParams>) -> (r: Result<usize, AudioDecoderError>)
    ensures
        match first_audio_track_from(tracks@, 0) {
            Some(i) => r == Ok::<usize, AudioDecoderError>(i as usize),
            None => r matches Err(AudioDecoderError::InvalidFile(m)) && m@
                == "No valid audio track found"@,
        },
{
    let mut i: usize = 0;
    while i < tracks.len()
        invariant
            0 <= i <= tracks.len(),
            first_audio_track_from(tracks@, 0) == first_audio_track_from(tracks@, i as int),
        decreases tracks.len() - i,
    {
        if tracks[i].has_codec {
            return Ok(i);
        }
        i = i + 1;
    }
    Err(AudioDecoderError::InvalidFile(message("No valid audio track found")))
}

/// The stream shape of a track once its rate and channels are known: the
/// bits per sample default to 16, and a count wider than 16 bits keeps its
/// low bits.
pub open spec fn spec_of_track(t: TrackParams, sample_rate: u32, channels: u16) -> AudioSpec {
    AudioSpec {
        sample_rate,
        channels,
        bits_per_sample: match t.bits_per_sample {
            Some(b) => b as u16,
            None => 16,
        },
        total_frames: t.n_frames,
    }
}

fn build_spec(t: &TrackParams, sample_rate: u32, channels: u16) -> (s: AudioSpec)
    ensures
        s == spec_of_track(*t, sample_rate, channels),
{
    let bits: u16 = match t.bits_per_sample {
        Some(b) => #[verifier::truncate] (b as u16),
        None => 16,
    };
    AudioSpec { sample_rate, channels, bits_per_sample: bits, total_frames: t.n_frames }
}

/// The sample rate of a track, required to decode it.
pub fn track_sample_rate(t: &TrackParams) -> (r: Result<u32, AudioDecoderError>)
    ensures
        match t.sample_rate {
            Some(s) => r == Ok::<u32, AudioDecoderError>(s),
            None => r matches Err(AudioDecoderError::InvalidFile(m)) && m@ == "No sample rate found"@,
        },
{
    match t.sample_rate {
        Some(s) => Ok(s),
        None => Err(AudioDecoderError::InvalidFile(message("No sample rate found"))),
    }
}

/// The channel count a track's layout gives, narrowed to 16 bits.
pub open spec fn layout_channels(t: TrackParams) -> Option<u16> {
    match t.channel_count {
        Some(c) => Some(c as u16),
        None => None,
    }
}

fn narrow(c: u32) -> (n: u16)
    ensures
        n == c as u16,
{
    #[verifier::truncate]
    (c as u16)
}

/// Where the decoder stands in its stream.
#[derive(PartialEq, Eq, Structural, Clone, Copy, Debug)]
pub struct StreamCursor {
    /// Position of the next frame to decode.
    pub position: u64,
    /// The track whose packets are decoded.
    pub track_id: u32,
    /// Whether the end of the stream was reached.
    pub eof: bool,
}

/// What came of reading the next packet of the container.
#[derive(PartialEq, Eq, Debug)]
pub enum PacketOutcome {
    /// A packet of the given track was read.
    Packet { track_id: u32 },
    /// The container ended.
    EndOfStream,
    /// Reading failed.
    Failed(AudioDecoderError),
}

/// What the decoder does next with a read packet.
#[derive(PartialEq, Eq, Debug)]
pub enum ReadStep {
    /// The stream is over: nothing more comes.
    Finished,
    /// The packet belongs to another track: read the next one.
    Skip,
    /// Decode the packet.
    Decode,
    /// Report the failure.
    Fail(AudioDecoderError),
}

impl StreamCursor {
    /// A cursor at the start of a track's stream.
    pub fn start(track_id: u32) -> (c: StreamCursor)
        ensures
            c == (StreamCursor { position: 0, track_id, eof: false }),
    {
        StreamCursor { position: 0, track_id, eof: false }
    }

    /// Whether another packet is to be read: not once the stream has ended.
    pub fn wants_packet(&self) -> (b: bool)
        ensures
            b == !self.eof,
    {
        !self.eof
    }

    /// Takes the outcome of a read. The end of the container, or a failed
    /// read, ends the stream; a packet of another track is skipped.
    pub fn on_read(&mut self, outcome: PacketOutcome) -> (step: ReadStep)
        ensures
            final(self).position == old(self).position,
            final(self).track_id == old(self).track_id,
            match outcome {
                PacketOutcome::Packet { track_id } => final(self).eof == old(self).eof && step == (
                if track_id == old(self).track_id {
                    ReadStep::Decode
                } else {
                    ReadStep::Skip
                }),
                PacketOutcome::EndOfStream => final(self).eof && step == ReadStep::Finished,
                PacketOutcome::Failed(e) => final(self).eof && step == ReadStep::Fail(e),
            },
    {
        match outcome {
            PacketOutcome::Packet { track_id } => {
                if track_id == self.track_id {
                    ReadStep::Decode
                } else {
                    ReadStep::Skip
                }
            },
            PacketOutcome::EndOfStream => {
                self.eof = true;
                ReadStep::Finished
            },
            PacketOutcome::Failed(e) => {
                self.eof = true;
                ReadStep::Fail(e)
            },
        }
    }

    /// Accounts for a decoded packet of `frames` frames: returns the
    /// position of its first frame and moves past it.
    pub fn on_decoded(&mut self, frames: u64) -> (start: u64)
        requires
            old(self).position + frames <= u64::MAX,
        ensures
            start == old(self).position,
            final(self).position == old(self).position + frames,
            final(self).track_id == old(self).track_id,
            final(self).eof == old(self).eof,
    {
        let start = self.position;
        self.position = self.position + frames;
        start
    }

    /// Takes a successful seek that landed on frame `actual`: decoding
    /// resumes there, even after the end of the stream.
    pub fn on_seek(&mut self, actual: u64)
        ensures
            final(self).position == actual,
            final(self).track_id == old(self).track_id,
            !final(self).eof,
    {
        self.position = actual;
        self.eof = false;
    }
}

/// Decoding state of a FLAC file.
pub struct FlacDecoder {
    /// Shape of the stream.
    pub spec: AudioSpec,
    /// Where decoding stands.
    pub cursor: StreamCursor,
    /// Size in frames of the chunks handed out.
    pub buffer_frames: usize,
}

/// How a FLAC decoder starts on a track: it needs the track's rate and
/// channel layout.
pub open spec fn flac_start_matches(t: TrackParams, r: Result<FlacDecoder, AudioDecoderError>) -> bool {
    match (t.sample_rate, layout_channels(t)) {
        (None, _) => r matches Err(AudioDecoderError::InvalidFile(m)) && m@ == "No sample rate found"@,
        (Some(_), None) => r matches Err(AudioDecoderError::InvalidFile(m)) && m@
            == "No channel information found"@,
        (Some(s), Some(c)) => r matches Ok(d) && d.spec == spec_of_track(t, s, c) && d.cursor
            == StreamCursor::start_spec(t.id) && d.buffer_frames == 4096,
    }
}

impl StreamCursor {
    /// A cursor at the start of a track's stream.
    pub open spec fn start_spec(track_id: u32) -> StreamCursor {
        StreamCursor { position: 0, track_id, eof: false }
    }
}

impl FlacDecoder {
    /// Starts decoding a track, which must report its rate and channels;
    /// chunks are 4096 frames until told otherwise.
    pub fn from_track(t: &TrackParams) -> (r: Result<FlacDecoder, AudioDecoderError>)
        ensures
            flac_start_matches(*t, r),
    {
        let sample_rate = match track_sample_rate(t) {
            Ok(s) => s,
            Err(e) => return Err(e),
        };
        let channels = match t.channel_count {
            Some(c) => narrow(c),
            None => {
                return Err(
                    AudioDecoderError::InvalidFile(message("No channel information found")),
                );
            },
        };
        Ok(FlacDecoder {
            spec: build_spec(t, sample_rate, channels),
            cursor: StreamCursor::start(t.id),
            buffer_frames: 4096,
        })
    }

    /// Sets the size in frames of the chunks handed out.
    pub fn set_buffer_frames(&mut self, frames: usize)
        ensures
            final(self).buffer_frames == frames,
            final(self).spec == old(self).spec,
            final(self).cursor == old(self).cursor,
    {
        self.buffer_frames = frames;
    }

    /// Shape of the stream.
    pub fn spec(&self) -> (s: AudioSpec)
        ensures
            s == self.spec,
    {
        self.spec
    }

    /// The format decoded: FLAC.
    pub fn format(&self) -> (f: AudioFormat)
        ensures
            f == AudioFormat::Flac,
    {
        AudioFormat::Flac
    }

    /// Position of the next frame to decode.
    pub fn position(&self) -> (p: u64)
        ensures
            p == self.cursor.position,
    {
        self.cursor.position
    }

    /// Whether the end of the stream was reached.
    pub fn is_eof(&self) -> (b: bool)
        ensures
            b == self.cursor.eof,
    {
        self.cursor.eof
    }
}

/// The channel count learnt from the first packet of a track whose layout
/// did not tell it: the packet must belong to the track and decode.
/// `first` is the first packet's track and, when it decoded, the channel
/// count of the decoded buffer; `None` when no packet could be read.
pub open spec fn probed_channels_spec(track_id: u32, first: Option<(u32, Option<u32>)>) -> Option<u16> {
    match first {
        Some((id, Some(c))) => if id == track_id {
            Some(c as u16)
        } else {
            None
        },
        _ => None,
    }
}

/// See [`probed_channels_spec`]; fails when the packet tells nothing.
pub fn probed_channels(track_id: u32, first: Option<(u32, Option<u32>)>) -> (r: Result<u16, AudioDecoderError>)
    ensures
        match probed_channels_spec(track_id, first) {
            Some(c) => r == Ok::<u16, AudioDecoderError>(c),
            None => r matches Err(AudioDecoderError::InvalidFile(m)) && m@
                == "No channel information found even after decoding first packet"@,
        },
{
    match first {
        Some((id, Some(c))) => {
            if id == track_id {
                return Ok(narrow(c));
            }
        },
        _ => {},
    }
    Err(
        AudioDecoderError::InvalidFile(
            message("No channel information found even after decoding first packet"),
        ),
    )
}

/// Decoding state of a file in any supported container.
pub struct SymphoniaDecoder {
    /// Shape of the stream.
    pub spec: AudioSpec,
    /// Format detected from the file's extension.
    pub format: AudioFormat,
    /// Where decoding stands.
    pub cursor: StreamCursor,
}

/// How a decoder starts on a track of a file with extension `ext`, the
/// channel count coming from the layout or else from `probed`.
pub open spec fn symphonia_start_matches(
    ext: Option<Seq<char>>,
    t: TrackParams,
    probed: Option<u16>,
    r: Result<SymphoniaDecoder, AudioDecoderError>,
) -> bool {
    let channels = match layout_channels(t) {
        Some(c) => Some(c),
        None => probed,
    };
    match (t.sample_rate, channels) {
        (None, _) => r matches Err(AudioDecoderError::InvalidFile(m)) && m@ == "No sample rate found"@,
        (Some(_), None) => r matches Err(AudioDecoderError::InvalidFile(m)) && m@
            == "No channel information found even after decoding first packet"@,
        (Some(s), Some(c)) => exists|f: Result<AudioFormat, AudioDecoderError>|
            #![auto]
            decodable_detection_matches(ext, f) && match f {
                Ok(fmt) => r matches Ok(d) && d.spec == spec_of_track(t, s, c) && d.format == fmt
                    && d.cursor == StreamCursor::start_spec(t.id),
                Err(e) => r == Err::<SymphoniaDecoder, AudioDecoderError>(e),
            },
    }
}

impl SymphoniaDecoder {
    /// Starts decoding a track of a file whose extension is `ext`. The
    /// channels come from the track's layout or else from `probed`, what
    /// the first packet told; the format comes from the extension.
    pub fn from_track_with_extension(ext: Option<&str>, t: &TrackParams, probed: Option<u16>) -> (r: Result<SymphoniaDecoder, AudioDecoderError>)
        ensures
            symphonia_start_matches(
                match ext {
                    Some(e) => Some(e@),
                    None => None,
                },
                *t,
                probed,
                r,
            ),
    {
        let sample_rate = match track_sample_rate(t) {
            Ok(s) => s,
            Err(e) => return Err(e),
        };
        let channels = match t.channel_count {
            Some(c) => narrow(c),
            None => match probed {
                Some(c) => c,
                None => {
                    return Err(
                        AudioDecoderError::InvalidFile(
                            message("No channel information found even after decoding first packet"),
                        ),
                    );
                },
            },
        };
        let spec = build_spec(t, sample_rate, channels);
        let f = AudioFormat::decodable_from_extension(ext);
        match f {
            Ok(format) => Ok(SymphoniaDecoder { spec, format, cursor: StreamCursor::start(t.id) }),
            Err(e) => Err(e),
        }
    }

    /// Starts decoding a track of the file at `path`, as
    /// [`SymphoniaDecoder::from_track_with_extension`] does with the
    /// extension of the path.
    pub fn from_track(path: &str, t: &TrackParams, probed: Option<u16>) -> (r: Result<SymphoniaDecoder, AudioDecoderError>)
        ensures
            exists|ext: Option<Seq<char>>| symphonia_start_matches(ext, *t, probed, r),
            portable_path(path@) ==> symphonia_start_matches(extension_of(path@), *t, probed, r),
    {
        let ext = path_extension(path);
        let r = match &ext {
            Some(e) => SymphoniaDecoder::from_track_with_extension(Some(e.as_str()), t, probed),
            None => SymphoniaDecoder::from_track_with_extension(None, t, probed),
        };
        proof {
            let w: Option<Seq<char>> = match ext {
                Some(e) => Some(e@),
                None => None,
            };
            assert(symphonia_start_matches(w, *t, probed, r));
        }
        r
    }

    /// Shape of the stream.
    pub fn spec(&self) -> (s: AudioSpec)
        ensures
            s == self.spec,
    {
        self.spec
    }

    /// The format detected for the file.
    pub fn format(&self) -> (f: AudioFormat)
        ensures
            f == self.format,
    {
        self.format
    }

    /// Position of the next frame to decode.
    pub fn position(&self) -> (p: u64)
        ensures
            p == self.cursor.position,
    {
        self.cursor.position
    }

    /// Whether the end of the stream was reached.
    pub fn is_eof(&self) -> (b: bool)
        ensures
            b == self.cursor.eof,
    {
        self.cursor.eof
    }
}

} // verus!
