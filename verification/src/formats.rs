//! Audio formats: their names, extensions and detection from a file path,
//! and the errors of the audio decoders.
use vstd::prelude::*;
use crate::text::{ascii_lower};

verus! {

/// Why an audio file could not be opened, decoded or sought.
#[derive(Clone, PartialEq, Eq, Debug)]
pub enum AudioDecoderError {
    /// Reading the file failed.
    Io(String),
    /// The format or codec is not supported.
    UnsupportedFormat(String),
    /// The file holds no usable audio stream.
    InvalidFile(String),
    /// A packet could not be decoded.
    DecodingFailed(String),
    /// A seek could not be performed.
    SeekFailed(String),
    /// Any other failure of the decoding library.
    Backend(String),
}

/// The formats the decoders know.
#[derive(PartialEq, Eq, Structural, Clone, Copy, Debug)]
pub enum AudioFormat {
    /// Free Lossless Audio Codec.
    Flac,
    /// MPEG audio layer III.
    Mp3,
    /// Advanced Audio Coding.
    Aac,
    /// RIFF WAVE.
    Wav,
    /// Ogg Vorbis.
    Vorbis,
    /// Audio Interchange File Format.
    Aiff,
}

/// Display name of a format.
pub open spec fn format_name(f: AudioFormat) -> Seq<char> {
    match f {
        AudioFormat::Flac => "FLAC"@,
        AudioFormat::Mp3 => "MP3"@,
        AudioFormat::Aac => "AAC"@,
        AudioFormat::Wav => "WAV"@,
        AudioFormat::Vorbis => "Vorbis"@,
        AudioFormat::Aiff => "AIFF"@,
    }
}

/// Usual file extension of a format.
pub open spec fn format_extension(f: AudioFormat) -> Seq<char> {
    match f {
        AudioFormat::Flac => "flac"@,
        AudioFormat::Mp3 => "mp3"@,
        AudioFormat::Aac => "m4a"@,
        AudioFormat::Wav => "wav"@,
        AudioFormat::Vorbis => "ogg"@,
        AudioFormat::Aiff => "aiff"@,
    }
}

/// The formats that detection from a path accepts, in order.
pub open spec fn supported_format_list() -> Seq<AudioFormat> {
    seq![AudioFormat::Flac]
}

/// The names of `fs` joined with `", "`.
pub open spec fn joined_names(fs: Seq<AudioFormat>) -> Seq<char>
    decreases fs.len(),
{
    if fs.len() == 0 {
        Seq::empty()
    } else if fs.len() == 1 {
        format_name(fs[0])
    } else {
        joined_names(fs.drop_last()) + ", "@ + format_name(fs.last())
    }
}

/// What the Unicode lower-casing of `s` gives.
pub uninterp spec fn unicode_lowercase(s: Seq<char>) -> Seq<char>;

/// Whether every character of `s` is ASCII.
pub open spec fn ascii_text(s: Seq<char>) -> bool {
    forall|i: int| 0 <= i < s.len() ==> (#[trigger] s[i]) < '\u{80}'
}

/// `s` with its ASCII capitals lowered and every other character kept.
pub open spec fn ascii_lowercase(s: Seq<char>) -> Seq<char> {
    s.map_values(|c: char| ascii_lower(c))
}

/// Lower-cases a string by the Unicode rules (`str::to_lowercase`). The
/// result is named, and for an ASCII text it is the ASCII lower case.
#[verifier::external_body]
fn lowercase(s: &str) -> (r: String)
    ensures
        r@ == unicode_lowercase(s@),
        ascii_text(s@) ==> r@ == ascii_lowercase(s@),
{
    s.to_lowercase()
}

/// The last component of a path: what follows its last `/`.
pub open spec fn file_name_of(p: Seq<char>) -> Seq<char>
    decreases p.len(),
{
    if p.len() == 0 || p.last() == '/' {
        Seq::empty()
    } else {
        file_name_of(p.drop_last()).push(p.last())
    }
}

/// The extension of a file name: the text after its last `.`, where that
/// `.` is not the first character; `None` where there is no such `.`.
pub open spec fn dot_extension(f: Seq<char>) -> Option<Seq<char>>
    decreases f.len(),
{
    if f.len() == 0 {
        None
    } else if f.last() == '.' {
        if f.len() > 1 {
            Some(Seq::empty())
        } else {
            None
        }
    } else {
        match dot_extension(f.drop_last()) {
            Some(e) => Some(e.push(f.last())),
            None => None,
        }
    }
}

/// The extension of a path: that of its last component.
pub open spec fn extension_of(p: Seq<char>) -> Option<Seq<char>> {
    dot_extension(file_name_of(p))
}

/// A path whose components read the same on every platform: not empty,
/// with no `\` and no `:`, not beginning with `//` (a network share on
/// some platforms), and not ending in `/` or `.`. Its last component is
/// then the text after its last `/`, and neither `.` nor `..`.
pub open spec fn portable_path(p: Seq<char>) -> bool {
    &&& p.len() > 0
    &&& forall|i: int| 0 <= i < p.len() ==> (#[trigger] p[i]) != '\\' && p[i] != ':'
    &&& !(p.len() >= 2 && p[0] == '/' && p[1] == '/')
    &&& p.last() != '/'
    &&& p.last() != '.'
}

/// The extension of a path (`Path::extension`, then `OsStr::to_str`), as
/// text. Of a portable path it is the text after the last `.` of the last
/// component, as std documents. Of any other path nothing is stated: with
/// `\` or `:`, or beginning with `//`, which part is the last component
/// depends on the platform.
#[verifier::external_body]
pub(crate) fn path_extension(path: &str) -> (r: Option<String>)
    ensures
        portable_path(path@) ==> (match r {
            Some(e) => Some(e@),
            None => None,
        }) == extension_of(path@),
{
    std::path::Path::new(path).extension().and_then(|e| e.to_str()).map(|e| e.to_string())
}

/// The message for a path without extension.
pub open spec fn no_extension_message() -> Seq<char> {
    "No file extension found"@
}

/// The message for an extension no format has, shown lower-cased.
pub open spec fn unsupported_extension_message(lower: Seq<char>) -> Seq<char> {
    "Unsupported file extension: "@ + lower
}

/// What detection gives for an extension whose lower case is `lower`.
pub open spec fn detection_of_lowered(lower: Seq<char>, r: Result<AudioFormat, AudioDecoderError>) -> bool {
    if lower == "flac"@ {
        r == Ok::<AudioFormat, AudioDecoderError>(AudioFormat::Flac)
    } else {
        r matches Err(AudioDecoderError::UnsupportedFormat(m)) && m@
            == unsupported_extension_message(lower)
    }
}

/// What detection gives for a path with extension `ext`: the extension is
/// lower-cased by the Unicode rules, which for ASCII text is the ASCII
/// lower case.
pub open spec fn detection_matches(ext: Option<Seq<char>>, r: Result<AudioFormat, AudioDecoderError>) -> bool {
    match ext {
        None => r matches Err(AudioDecoderError::UnsupportedFormat(m)) && m@ == no_extension_message(),
        Some(e) => {
            &&& detection_of_lowered(unicode_lowercase(e), r)
            &&& ascii_text(e) ==> detection_of_lowered(ascii_lowercase(e), r)
        },
    }
}

/// The format that the decoders' readers take a file with the lower-cased
/// extension `lower` to hold: FLAC, MP3, WAV, Ogg Vorbis, AAC (in MP4/M4A
/// or raw) and AIFF.
pub open spec fn decodable_format_named(lower: Seq<char>) -> Option<AudioFormat> {
    if lower == "flac"@ {
        Some(AudioFormat::Flac)
    } else if lower == "mp3"@ {
        Some(AudioFormat::Mp3)
    } else if lower == "wav"@ {
        Some(AudioFormat::Wav)
    } else if lower == "ogg"@ {
        Some(AudioFormat::Vorbis)
    } else if lower == "m4a"@ || lower == "mp4"@ || lower == "aac"@ {
        Some(AudioFormat::Aac)
    } else if lower == "aiff"@ {
        Some(AudioFormat::Aiff)
    } else {
        None
    }
}

/// What the decoders' detection gives for an extension whose lower case
/// is `lower`.
pub open spec fn decodable_detection_of_lowered(
    lower: Seq<char>,
    r: Result<AudioFormat, AudioDecoderError>,
) -> bool {
    match decodable_format_named(lower) {
        Some(f) => r == Ok::<AudioFormat, AudioDecoderError>(f),
        None => r matches Err(AudioDecoderError::UnsupportedFormat(m)) && m@
            == unsupported_extension_message(lower),
    }
}

/// What the decoders' detection gives for a file with extension `ext`,
/// lower-cased as in [`detection_matches`].
pub open spec fn decodable_detection_matches(
    ext: Option<Seq<char>>,
    r: Result<AudioFormat, AudioDecoderError>,
) -> bool {
    match ext {
        None => r matches Err(AudioDecoderError::UnsupportedFormat(m)) && m@ == no_extension_message(),
        Some(e) => {
            &&& decodable_detection_of_lowered(unicode_lowercase(e), r)
            &&& ascii_text(e) ==> decodable_detection_of_lowered(ascii_lowercase(e), r)
        },
    }
}

impl AudioFormat {
    /// The format that a file extension designates, compared after Unicode
    /// lower-casing; only FLAC is recognised.
    pub fn from_extension(ext: Option<&str>) -> (r: Result<AudioFormat, AudioDecoderError>)
        ensures
            detection_matches(
                match ext {
                    Some(e) => Some(e@),
                    None => None,
                },
                r,
            ),
    {
        match ext {
            None => {
                let mut m = String::new();
                m.append("No file extension found");
                Err(AudioDecoderError::UnsupportedFormat(m))
            },
            Some(e) => {
                let lower = lowercase(e);
                if crate::text::str_eq(lower.as_str(), "flac") {
                    Ok(AudioFormat::Flac)
                } else {
                    let mut m = String::new();
                    m.append("Unsupported file extension: ");
                    m.append(lower.as_str());
                    Err(AudioDecoderError::UnsupportedFormat(m))
                }
            },
        }
    }

    /// The format of a file that the decoders read, from its extension
    /// compared after Unicode lower-casing: `flac`, `mp3`, `wav`, `ogg`,
    /// `m4a`, `mp4`, `aac` and `aiff` are recognised.
    pub fn decodable_from_extension(ext: Option<&str>) -> (r: Result<AudioFormat, AudioDecoderError>)
        ensures
            decodable_detection_matches(
                match ext {
                    Some(e) => Some(e@),
                    None => None,
                },
                r,
            ),
    {
        match ext {
            None => {
                let mut m = String::new();
                m.append("No file extension found");
                Err(AudioDecoderError::UnsupportedFormat(m))
            },
            Some(e) => {
                let lower = lowercase(e);
                let l = lower.as_str();
                if crate::text::str_eq(l, "flac") {
                    Ok(AudioFormat::Flac)
                } else if crate::text::str_eq(l, "mp3") {
                    Ok(AudioFormat::Mp3)
                } else if crate::text::str_eq(l, "wav") {
                    Ok(AudioFormat::Wav)
                } else if crate::text::str_eq(l, "ogg") {
                    Ok(AudioFormat::Vorbis)
                } else if crate::text::str_eq(l, "m4a") || crate::text::str_eq(l, "mp4")
                    || crate::text::str_eq(l, "aac") {
                    Ok(AudioFormat::Aac)
                } else if crate::text::str_eq(l, "aiff") {
                    Ok(AudioFormat::Aiff)
                } else {
                    let mut m = String::new();
                    m.append("Unsupported file extension: ");
                    m.append(l);
                    Err(AudioDecoderError::UnsupportedFormat(m))
                }
            },
        }
    }

    /// Detects the format of a file from the extension of its path.
    pub fn from_path(path: &str) -> (r: Result<AudioFormat, AudioDecoderError>)
        ensures
            exists|ext: Option<Seq<char>>| detection_matches(ext, r),
            portable_path(path@) ==> detection_matches(extension_of(path@), r),
    {
        let ext = path_extension(path);
        let r = match &ext {
            Some(e) => AudioFormat::from_extension(Some(e.as_str())),
            None => AudioFormat::from_extension(None),
        };
        proof {
            let w: Option<Seq<char>> = match ext {
                Some(e) => Some(e@),
                None => None,
            };
            assert(detection_matches(w, r));
        }
        r
    }

    /// Display name of the format.
    pub fn as_str(&self) -> (s: &'static str)
        ensures
            s@ == format_name(*self),
    {
        match self {
            AudioFormat::Flac => "FLAC",
            AudioFormat::Mp3 => "MP3",
            AudioFormat::Aac => "AAC",
            AudioFormat::Wav => "WAV",
            AudioFormat::Vorbis => "Vorbis",
            AudioFormat::Aiff => "AIFF",
        }
    }

    /// Usual file extension of the format.
    pub fn extension(&self) -> (s: &'static str)
        ensures
            s@ == format_extension(*self),
    {
        match self {
            AudioFormat::Flac => "flac",
            AudioFormat::Mp3 => "mp3",
            AudioFormat::Aac => "m4a",
            AudioFormat::Wav => "wav",
            AudioFormat::Vorbis => "ogg",
            AudioFormat::Aiff => "aiff",
        }
    }

    /// Whether the format keeps every sample exactly.
    pub fn is_lossless(&self) -> (b: bool)
        ensures
            b == (*self == AudioFormat::Flac || *self == AudioFormat::Wav || *self
                == AudioFormat::Aiff),
    {
        match self {
            AudioFormat::Flac | AudioFormat::Wav | AudioFormat::Aiff => true,
            _ => false,
        }
    }

    /// The formats that detection from a path accepts.
    pub fn supported_formats() -> (v: Vec<AudioFormat>)
        ensures
            v@ == supported_format_list(),
    {
        let mut v: Vec<AudioFormat> = Vec::new();
        v.push(AudioFormat::Flac);
        v
    }

    /// The names of the supported formats, separated by `", "`.
    pub fn supported_formats_string() -> (s: String)
        ensures
            s@ == joined_names(supported_format_list()),
    {
        let formats = AudioFormat::supported_formats();
        let mut s = String::new();
        let mut i: usize = 0;
        while i < formats.len()
            invariant
                formats@ == supported_format_list(),
                0 <= i <= formats.len(),
                s@ == joined_names(formats@.take(i as int)),
            decreases formats.len() - i,
        {
            proof {
                assert(formats@.take(i + 1).drop_last() =~= formats@.take(i as int));
            }
            if i > 0 {
                s.append(", ");
            }
            s.append(formats[i].as_str());
            i = i + 1;
        }
        proof {
            assert(formats@.take(formats@.len() as int) =~= formats@);
        }
        s
    }

    /// The name of the format, as `Display` would show it.
    pub fn to_string(&self) -> (s: String)
        ensures
            s@ == format_name(*self),
    {
        let mut s = String::new();
        s.append(self.as_str());
        s
    }
}

} // verus!
