//! Audio device configurations: which stream configurations a device is
//! offered with, whether a requested configuration fits a device, and the
//! selection state that a successful request updates.
use vstd::prelude::*;
use crate::text::{push_decimal, str_eq, decimal};

verus! {

/// The sample formats an audio host can report.
#[derive(PartialEq, Eq, Structural, Clone, Copy, Debug)]
pub enum SampleFormat {
    /// Signed 8-bit.
    I8,
    /// Signed 16-bit.
    I16,
    /// Signed 32-bit.
    I32,
    /// Signed 64-bit.
    I64,
    /// Unsigned 8-bit.
    U8,
    /// Unsigned 16-bit.
    U16,
    /// Unsigned 32-bit.
    U32,
    /// Unsigned 64-bit.
    U64,
    /// 32-bit float.
    F32,
    /// 64-bit float.
    F64,
    /// A format this library has no name for.
    Other,
}

/// The name a sample format is shown with: `f32`, `i16` and `u16` by
/// name, any other as `unknown`.
pub open spec fn sample_format_name(f: SampleFormat) -> Seq<char> {
    match f {
        SampleFormat::F32 => "f32"@,
        SampleFormat::I16 => "i16"@,
        SampleFormat::U16 => "u16"@,
        _ => "unknown"@,
    }
}

/// See [`sample_format_name`].
pub fn format_to_string(f: SampleFormat) -> (s: String)
    ensures
        s@ == sample_format_name(f),
{
    let mut s = String::new();
    match f {
        SampleFormat::F32 => s.append("f32"),
        SampleFormat::I16 => s.append("i16"),
        SampleFormat::U16 => s.append("u16"),
        _ => s.append("unknown"),
    }
    s
}

/// A stream configuration of a device.
#[derive(Clone, Debug, PartialEq, Eq)]
pub struct AudioConfig {
    /// Frames per second.
    pub sample_rate: u32,
    /// Number of channels.
    pub channels: u16,
    /// Buffer size in frames, when fixed.
    pub buffer_size: Option<u32>,
    /// Sample format name, as [`sample_format_name`] gives it.
    pub sample_format: String,
}

impl View for AudioConfig {
    type V = (u32, u16, Option<u32>, Seq<char>);

    open spec fn view(&self) -> Self::V {
        (self.sample_rate, self.channels, self.buffer_size, self.sample_format@)
    }
}

/// An audio device and the configurations it is offered with.
#[derive(Clone, Debug)]
pub struct AudioDevice {
    /// Name the host gives the device.
    pub name: String,
    /// Whether it records (else it plays).
    pub is_input: bool,
    /// Whether it is the host's default device of its direction.
    pub is_default: bool,
    /// The configurations offered.
    pub supported_configs: Vec<AudioConfig>,
    /// The device's own default configuration, when it has one.
    pub default_config: Option<AudioConfig>,
}

/// The devices and configurations selected so far.
#[derive(Clone, Debug)]
pub struct AudioState {
    /// Name of the selected recording device.
    pub selected_input_device: Option<String>,
    /// Name of the selected playback device.
    pub selected_output_device: Option<String>,
    /// Configuration of the selected recording device.
    pub input_config: Option<AudioConfig>,
    /// Configuration of the selected playback device.
    pub output_config: Option<AudioConfig>,
}

impl Default for AudioState {
    fn default() -> (s: AudioState)
        ensures
            s.selected_input_device is None,
            s.selected_output_device is None,
            s.input_config is None,
            s.output_config is None,
    {
        AudioState {
            selected_input_device: None,
            selected_output_device: None,
            input_config: None,
            output_config: None,
        }
    }
}

/// A range of stream configurations that a device supports.
#[derive(PartialEq, Eq, Structural, Clone, Copy, Debug)]
pub struct ConfigRange {
    /// Lowest supported rate.
    pub min_sample_rate: u32,
    /// Highest supported rate.
    pub max_sample_rate: u32,
    /// Largest supported channel count.
    pub channels: u16,
    /// Sample format of the range.
    pub sample_format: SampleFormat,
}

/// The view of an offered configuration: no fixed buffer size.
pub open spec fn offered(sample_rate: u32, channels: u16, f: SampleFormat) -> (u32, u16, Option<u32>, Seq<char>) {
    (sample_rate, channels, None, sample_format_name(f))
}

fn make_config(sample_rate: u32, channels: u16, f: SampleFormat) -> (c: AudioConfig)
    ensures
        c@ == offered(sample_rate, channels, f),
{
    AudioConfig { sample_rate, channels, buffer_size: None, sample_format: format_to_string(f) }
}

// ---------------------------------------------------------------------------
// Recording devices
// ---------------------------------------------------------------------------

/// Channel counts offered for a recording range: mono, or mono and
/// stereo when the range reaches two channels (its own count when it is
/// below one).
pub open spec fn input_channel_choices(max: u16) -> Seq<u16> {
    if max == 1 {
        seq![1u16]
    } else if max >= 2 {
        seq![1u16, 2u16]
    } else {
        seq![max]
    }
}

/// The configurations offered for one recording range: at its lowest and
/// at its highest rate, each with every channel choice.
pub open spec fn range_input_configs(r: ConfigRange) -> Seq<(u32, u16, Option<u32>, Seq<char>)> {
    let chs = input_channel_choices(r.channels);
    chs.map_values(|c: u16| offered(r.min_sample_rate, c, r.sample_format)) + chs.map_values(
        |c: u16| offered(r.max_sample_rate, c, r.sample_format),
    )
}

/// The configurations offered for a recording device, range after range.
pub open spec fn input_configs_spec(ranges: Seq<ConfigRange>) -> Seq<(u32, u16, Option<u32>, Seq<char>)>
    decreases ranges.len(),
{
    if ranges.len() == 0 {
        Seq::empty()
    } else {
        input_configs_spec(ranges.drop_last()) + range_input_configs(ranges.last())
    }
}

/// The views of a list of configurations.
pub open spec fn config_views(v: Seq<AudioConfig>) -> Seq<(u32, u16, Option<u32>, Seq<char>)> {
    v.map_values(|c: AudioConfig| c@)
}

fn input_channels(max: u16) -> (v: Vec<u16>)
    ensures
        v@ == input_channel_choices(max),
{
    let mut v: Vec<u16> = Vec::new();
    if max == 1 {
        v.push(1);
    } else if max >= 2 {
        v.push(1);
        v.push(2);
    } else {
        v.push(max);
    }
    v
}

fn push_rate_configs(out: &mut Vec<AudioConfig>, rate: u32, chs: &Vec<u16>, f: SampleFormat)
    ensures
        config_views(final(out)@) == config_views(old(out)@) + chs@.map_values(
            |c: u16| offered(rate, c, f),
        ),
{
    let ghost start = config_views(out@);
    let mut k: usize = 0;
    while k < chs.len()
        invariant
            0 <= k <= chs.len(),
            config_views(out@) == start + chs@.take(k as int).map_values(|c: u16| offered(rate, c, f)),
        decreases chs.len() - k,
    {
        let c = make_config(rate, chs[k], f);
        let ghost prev = out@;
        out.push(c);
        proof {
            assert(config_views(out@) =~= config_views(prev).push(c@));
            assert(chs@.take(k + 1) =~= chs@.take(k as int).push(chs@[k as int]));
            assert(config_views(out@) =~= start + chs@.take(k + 1).map_values(|c: u16| offered(rate, c, f)));
        }
        k = k + 1;
    }
    assert(chs@.take(chs@.len() as int) =~= chs@);
}

/// The configurations offered for a recording device with the given
/// supported ranges.
pub fn input_configs(ranges: &Vec<ConfigRange>) -> (v: Vec<AudioConfig>)
    ensures
        config_views(v@) == input_configs_spec(ranges@),
{
    let mut out: Vec<AudioConfig> = Vec::new();
    let mut i: usize = 0;
    while i < ranges.len()
        invariant
            0 <= i <= ranges.len(),
            config_views(out@) == input_configs_spec(ranges@.take(i as int)),
        decreases ranges.len() - i,
    {
        let r = ranges[i];
        let chs = input_channels(r.channels);
        push_rate_configs(&mut out, r.min_sample_rate, &chs, r.sample_format);
        push_rate_configs(&mut out, r.max_sample_rate, &chs, r.sample_format);
        proof {
            assert(ranges@.take(i + 1).drop_last() =~= ranges@.take(i as int));
        }
        i = i + 1;
    }
    assert(ranges@.take(ranges@.len() as int) =~= ranges@);
    out
}

// ---------------------------------------------------------------------------
// Playback devices
// ---------------------------------------------------------------------------

/// The `j`-th rate tried for a playback range: the common rates from
/// 44.1 kHz to 192 kHz, then the range's own lowest and highest rates.
pub open spec fn common_rate(r: ConfigRange, j: int) -> u32 {
    seq![44100u32, 48000u32, 88200u32, 96000u32, 176400u32, 192000u32, r.min_sample_rate, r.max_sample_rate][j]
}

/// The `c`-th channel count tried for a playback range: mono, stereo, and
/// the range's own count.
pub open spec fn common_channels(r: ConfigRange, c: int) -> u16 {
    seq![1u16, 2u16, r.channels][c]
}

/// Whether a rate lies within a range.
pub open spec fn rate_in_range(r: ConfigRange, sr: u32) -> bool {
    r.min_sample_rate <= sr <= r.max_sample_rate
}

/// The configurations tried at rate `sr` with the first `c` channel
/// counts, those above the range's count left out.
pub open spec fn channel_candidates(r: ConfigRange, sr: u32, c: int) -> Seq<(u32, u16, Option<u32>, Seq<char>)>
    decreases c,
{
    if c <= 0 {
        Seq::empty()
    } else {
        channel_candidates(r, sr, c - 1) + (if common_channels(r, c - 1) <= r.channels {
            seq![offered(sr, common_channels(r, c - 1), r.sample_format)]
        } else {
            Seq::empty()
        })
    }
}

/// The configurations tried with the first `j` rates of a range, those
/// outside the range left out.
pub open spec fn rate_candidates(r: ConfigRange, j: int) -> Seq<(u32, u16, Option<u32>, Seq<char>)>
    decreases j,
{
    if j <= 0 {
        Seq::empty()
    } else {
        rate_candidates(r, j - 1) + (if rate_in_range(r, common_rate(r, j - 1)) {
            channel_candidates(r, common_rate(r, j - 1), 3)
        } else {
            Seq::empty()
        })
    }
}

/// The configurations tried for a playback device, range after range.
pub open spec fn output_candidates(ranges: Seq<ConfigRange>) -> Seq<(u32, u16, Option<u32>, Seq<char>)>
    decreases ranges.len(),
{
    if ranges.len() == 0 {
        Seq::empty()
    } else {
        output_candidates(ranges.drop_last()) + rate_candidates(ranges.last(), 8)
    }
}

/// The elements of `s` in order, each kept at its first occurrence only.
pub open spec fn first_occurrences<K>(s: Seq<K>) -> Seq<K>
    decreases s.len(),
{
    if s.len() == 0 {
        Seq::empty()
    } else {
        let d = first_occurrences(s.drop_last());
        if d.contains(s.last()) {
            d
        } else {
            d.push(s.last())
        }
    }
}

/// The configurations offered for a playback device: every tried
/// configuration, once.
pub open spec fn output_configs_spec(ranges: Seq<ConfigRange>) -> Seq<(u32, u16, Option<u32>, Seq<char>)> {
    first_occurrences(output_candidates(ranges))
}

/// Keeping first occurrences leaves no element twice, and keeps only
/// elements of the sequence it is given.
pub proof fn lemma_first_occurrences_distinct<K>(s: Seq<K>)
    ensures
        first_occurrences(s).no_duplicates(),
        forall|k: int| 0 <= k < first_occurrences(s).len() ==> s.contains(
            #[trigger] first_occurrences(s)[k],
        ),
    decreases s.len(),
{
    if s.len() > 0 {
        let p = s.drop_last();
        lemma_first_occurrences_distinct(p);
        let d = first_occurrences(p);
        assert forall|k: int| 0 <= k < d.len() implies s.contains(#[trigger] d[k]) by {
            let m = choose|m: int| 0 <= m < p.len() && p[m] == d[k];
            assert(s[m] == d[k]);
        }
        if !d.contains(s.last()) {
            let e = d.push(s.last());
            assert forall|a: int, b: int| 0 <= a < e.len() && 0 <= b < e.len() && a != b implies e[a]
                != e[b] by {
                if a == d.len() as int {
                    assert(e[b] == d[b]);
                } else if b == d.len() as int {
                    assert(e[a] == d[a]);
                }
            }
            assert(s[s.len() - 1] == s.last());
        }
    }
}

/// Whether a configuration is allowed by one of the ranges: its rate within
/// the range, its channels at most the range's, and its format the range's.
pub open spec fn within_some_range(ranges: Seq<ConfigRange>, c: (u32, u16, Option<u32>, Seq<char>)) -> bool {
    exists|i: int|
        0 <= i < ranges.len() && rate_in_range(#[trigger] ranges[i], c.0) && c.1 <= ranges[i].channels
            && c.3 == sample_format_name(ranges[i].sample_format)
}

proof fn lemma_channel_candidates_allowed(r: ConfigRange, sr: u32, c: int)
    requires
        rate_in_range(r, sr),
        c <= 3,
    ensures
        forall|k: int| 0 <= k < channel_candidates(r, sr, c).len() ==> {
            let x = #[trigger] channel_candidates(r, sr, c)[k];
            rate_in_range(r, x.0) && x.1 <= r.channels && x.3 == sample_format_name(r.sample_format)
        },
    decreases c,
{
    if c > 0 {
        lemma_channel_candidates_allowed(r, sr, c - 1);
        let a = channel_candidates(r, sr, c - 1);
        let s = channel_candidates(r, sr, c);
        assert forall|k: int| 0 <= k < s.len() implies {
            let x = #[trigger] s[k];
            rate_in_range(r, x.0) && x.1 <= r.channels && x.3 == sample_format_name(r.sample_format)
        } by {
            if k < a.len() {
                assert(s[k] == a[k]);
            }
        }
    }
}

proof fn lemma_rate_candidates_allowed(r: ConfigRange, j: int)
    requires
        j <= 8,
    ensures
        forall|k: int| 0 <= k < rate_candidates(r, j).len() ==> {
            let x = #[trigger] rate_candidates(r, j)[k];
            rate_in_range(r, x.0) && x.1 <= r.channels && x.3 == sample_format_name(r.sample_format)
        },
    decreases j,
{
    if j > 0 {
        lemma_rate_candidates_allowed(r, j - 1);
        let a = rate_candidates(r, j - 1);
        let s = rate_candidates(r, j);
        if rate_in_range(r, common_rate(r, j - 1)) {
            lemma_channel_candidates_allowed(r, common_rate(r, j - 1), 3);
            let b = channel_candidates(r, common_rate(r, j - 1), 3);
            assert forall|k: int| 0 <= k < s.len() implies {
                let x = #[trigger] s[k];
                rate_in_range(r, x.0) && x.1 <= r.channels && x.3 == sample_format_name(r.sample_format)
            } by {
                if k < a.len() {
                    assert(s[k] == a[k]);
                } else {
                    assert(s[k] == b[k - a.len()]);
                }
            }
        } else {
            assert(s =~= a);
        }
    }
}

proof fn lemma_output_candidates_allowed(ranges: Seq<ConfigRange>)
    ensures
        forall|k: int| 0 <= k < output_candidates(ranges).len() ==> within_some_range(
            ranges,
            #[trigger] output_candidates(ranges)[k],
        ),
    decreases ranges.len(),
{
    if ranges.len() > 0 {
        let p = ranges.drop_last();
        lemma_output_candidates_allowed(p);
        lemma_rate_candidates_allowed(ranges.last(), 8);
        let a = output_candidates(p);
        let b = rate_candidates(ranges.last(), 8);
        assert forall|k: int| 0 <= k < output_candidates(ranges).len() implies within_some_range(
            ranges,
            #[trigger] output_candidates(ranges)[k],
        ) by {
            if k < a.len() {
                let i = choose|i: int|
                    0 <= i < p.len() && rate_in_range(#[trigger] p[i], a[k].0) && a[k].1
                        <= p[i].channels && a[k].3 == sample_format_name(p[i].sample_format);
                assert(ranges[i] == p[i]);
            } else {
                assert(b[k - a.len()] == output_candidates(ranges)[k]);
                assert(ranges[ranges.len() - 1] == ranges.last());
            }
        }
    }
}

/// No playback configuration is offered twice, and each one is allowed by
/// one of the device's ranges.
pub proof fn lemma_output_configs_sound(ranges: Seq<ConfigRange>)
    ensures
        output_configs_spec(ranges).no_duplicates(),
        forall|k: int| 0 <= k < output_configs_spec(ranges).len() ==> within_some_range(
            ranges,
            #[trigger] output_configs_spec(ranges)[k],
        ),
{
    lemma_first_occurrences_distinct(output_candidates(ranges));
    lemma_output_candidates_allowed(ranges);
    let s = output_candidates(ranges);
    assert forall|k: int| 0 <= k < output_configs_spec(ranges).len() implies within_some_range(
        ranges,
        #[trigger] output_configs_spec(ranges)[k],
    ) by {
        let x = output_configs_spec(ranges)[k];
        assert(s.contains(x));
        let m = choose|m: int| 0 <= m < s.len() && s[m] == x;
        assert(within_some_range(ranges, s[m]));
    }
}

fn common_rate_at(r: &ConfigRange, j: usize) -> (sr: u32)
    requires
        j < 8,
    ensures
        sr == common_rate(*r, j as int),
{
    if j == 0 {
        44100
    } else if j == 1 {
        48000
    } else if j == 2 {
        88200
    } else if j == 3 {
        96000
    } else if j == 4 {
        176400
    } else if j == 5 {
        192000
    } else if j == 6 {
        r.min_sample_rate
    } else {
        r.max_sample_rate
    }
}

fn common_channels_at(r: &ConfigRange, c: usize) -> (ch: u16)
    requires
        c < 3,
    ensures
        ch == common_channels(*r, c as int),
{
    if c == 0 {
        1
    } else if c == 1 {
        2
    } else {
        r.channels
    }
}

/// Whether `out` already offers a configuration with the rate, channels
/// and format of `x`.
fn already_offered(out: &Vec<AudioConfig>, x: &AudioConfig) -> (b: bool)
    requires
        forall|k: int| 0 <= k < out@.len() ==> (#[trigger] out@[k]).buffer_size is None,
        x.buffer_size is None,
    ensures
        b == config_views(out@).contains(x@),
{
    let mut k: usize = 0;
    while k < out.len()
        invariant
            0 <= k <= out.len(),
            forall|m: int| 0 <= m < out@.len() ==> (#[trigger] out@[m]).buffer_size is None,
            x.buffer_size is None,
            forall|m: int| 0 <= m < k ==> #[trigger] config_views(out@)[m] != x@,
        decreases out.len() - k,
    {
        let c = &out[k];
        if c.sample_rate == x.sample_rate && c.channels == x.channels && str_eq(
            c.sample_format.as_str(),
            x.sample_format.as_str(),
        ) {
            assert(config_views(out@)[k as int] == x@);
            return true;
        }
        k = k + 1;
    }
    false
}

proof fn lemma_first_occurrences_push<K>(s: Seq<K>, x: K)
    ensures
        first_occurrences(s.push(x)) == (if first_occurrences(s).contains(x) {
            first_occurrences(s)
        } else {
            first_occurrences(s).push(x)
        }),
{
    assert(s.push(x).drop_last() =~= s);
}

/// The configurations offered for a playback device with the given
/// supported ranges: every common rate within a range, and the range's
/// extreme rates, each with mono, stereo and the range's channel count as
/// far as the range allows; a configuration already offered is not
/// repeated.
pub fn output_configs(ranges: &Vec<ConfigRange>) -> (v: Vec<AudioConfig>)
    ensures
        config_views(v@) == output_configs_spec(ranges@),
{
    let mut out: Vec<AudioConfig> = Vec::new();
    let mut i: usize = 0;
    while i < ranges.len()
        invariant
            0 <= i <= ranges.len(),
            forall|k: int| 0 <= k < out@.len() ==> (#[trigger] out@[k]).buffer_size is None,
            config_views(out@) == first_occurrences(output_candidates(ranges@.take(i as int))),
        decreases ranges.len() - i,
    {
        let r = ranges[i];
        let ghost before = output_candidates(ranges@.take(i as int));
        let mut j: usize = 0;
        while j < 8
            invariant
                0 <= j <= 8,
                r == ranges@[i as int],
                forall|k: int| 0 <= k < out@.len() ==> (#[trigger] out@[k]).buffer_size is None,
                config_views(out@) == first_occurrences(before + rate_candidates(r, j as int)),
            decreases 8 - j,
        {
            let sr = common_rate_at(&r, j);
            if r.min_sample_rate <= sr && sr <= r.max_sample_rate {
                let mut c: usize = 0;
                while c < 3
                    invariant
                        0 <= c <= 3,
                        j < 8,
                        sr == common_rate(r, j as int),
                        forall|k: int| 0 <= k < out@.len() ==> (#[trigger] out@[k]).buffer_size is None,
                        config_views(out@) == first_occurrences(
                            before + rate_candidates(r, j as int) + channel_candidates(r, sr, c as int),
                        ),
                    decreases 3 - c,
                {
                    let ch = common_channels_at(&r, c);
                    let ghost prefix = before + rate_candidates(r, j as int) + channel_candidates(r, sr, c as int);
                    if ch <= r.channels {
                        let x = make_config(sr, ch, r.sample_format);
                        proof {
                            assert(prefix.push(x@) =~= before + rate_candidates(r, j as int)
                                + channel_candidates(r, sr, c + 1));
                            lemma_first_occurrences_push(prefix, x@);
                        }
                        if !already_offered(&out, &x) {
                            let ghost prev = out@;
                            out.push(x);
                            proof {
                                assert(config_views(out@) =~= config_views(prev).push(x@));
                            }
                        }
                    } else {
                        proof {
                            assert(prefix =~= before + rate_candidates(r, j as int)
                                + channel_candidates(r, sr, c + 1));
                        }
                    }
                    c = c + 1;
                }
                proof {
                    assert(before + rate_candidates(r, j as int) + channel_candidates(r, sr, 3)
                        =~= before + rate_candidates(r, j + 1));
                }
            } else {
                proof {
                    assert(before + rate_candidates(r, j as int) =~= before + rate_candidates(r, j + 1));
                }
            }
            j = j + 1;
        }
        proof {
            assert(ranges@.take(i + 1).drop_last() =~= ranges@.take(i as int));
            assert(ranges@.take(i + 1).last() == r);
        }
        i = i + 1;
    }
    assert(ranges@.take(ranges@.len() as int) =~= ranges@);
    out
}

/// Recording configurations of ranges whose rates are ordered are allowed
/// by the ranges they come from.
pub proof fn lemma_input_configs_sound(ranges: Seq<ConfigRange>)
    requires
        forall|i: int| 0 <= i < ranges.len() ==> (#[trigger] ranges[i]).min_sample_rate
            <= ranges[i].max_sample_rate,
    ensures
        forall|k: int| 0 <= k < input_configs_spec(ranges).len() ==> within_some_range(
            ranges,
            #[trigger] input_configs_spec(ranges)[k],
        ),
    decreases ranges.len(),
{
    if ranges.len() > 0 {
        let p = ranges.drop_last();
        assert forall|i: int| 0 <= i < p.len() implies (#[trigger] p[i]).min_sample_rate
            <= p[i].max_sample_rate by {
            assert(p[i] == ranges[i]);
        }
        lemma_input_configs_sound(p);
        let r = ranges.last();
        assert(ranges[ranges.len() - 1] == r);
        let a = input_configs_spec(p);
        let b = range_input_configs(r);
        let chs = input_channel_choices(r.channels);
        assert forall|k: int| 0 <= k < input_configs_spec(ranges).len() implies within_some_range(
            ranges,
            #[trigger] input_configs_spec(ranges)[k],
        ) by {
            let x = input_configs_spec(ranges)[k];
            if k < a.len() {
                assert(x == a[k]);
                let i = choose|i: int|
                    0 <= i < p.len() && rate_in_range(#[trigger] p[i], a[k].0) && a[k].1
                        <= p[i].channels && a[k].3 == sample_format_name(p[i].sample_format);
                assert(ranges[i] == p[i]);
            } else {
                let m = k - a.len();
                assert(x == b[m]);
                if m < chs.len() {
                    assert(b[m] == offered(r.min_sample_rate, chs[m], r.sample_format));
                } else {
                    assert(b[m] == offered(r.max_sample_rate, chs[m - chs.len()], r.sample_format));
                }
                assert(rate_in_range(ranges[ranges.len() - 1], x.0));
            }
        }
    }
}

/// Whether a device with the given ranges supports a configuration.
pub fn config_supported(config: &AudioConfig, ranges: &Vec<ConfigRange>) -> (b: bool)
    ensures
        b == within_some_range(ranges@, config@),
{
    let mut i: usize = 0;
    while i < ranges.len()
        invariant
            0 <= i <= ranges.len(),
            forall|k: int|
                0 <= k < i ==> !(rate_in_range(#[trigger] ranges@[k], config@.0) && config@.1
                    <= ranges@[k].channels && config@.3 == sample_format_name(ranges@[k].sample_format)),
        decreases ranges.len() - i,
    {
        let r = ranges[i];
        let name = format_to_string(r.sample_format);
        if r.min_sample_rate <= config.sample_rate && config.sample_rate <= r.max_sample_rate
            && r.channels >= config.channels && str_eq(name.as_str(), config.sample_format.as_str()) {
            return true;
        }
        i = i + 1;
    }
    false
}

/// The word for a device's direction.
pub open spec fn direction_word(is_input: bool) -> Seq<char> {
    if is_input {
        "input"@
    } else {
        "output"@
    }
}

/// The settings of a configuration, as messages show them.
pub open spec fn settings_text(c: (u32, u16, Option<u32>, Seq<char>)) -> Seq<char> {
    "sample_rate="@ + decimal(c.0 as nat) + ", channels="@ + decimal(c.1 as nat) + ", format="@
        + c.3
}

/// The answer to a configuration the device does not support.
pub open spec fn refused_message(name: Seq<char>, c: (u32, u16, Option<u32>, Seq<char>)) -> Seq<char> {
    "Configuration not supported by device '"@ + name + "': "@ + settings_text(c)
}

/// The answer to a configuration that was stored.
pub open spec fn configured_message(name: Seq<char>, is_input: bool, c: (u32, u16, Option<u32>, Seq<char>)) -> Seq<char> {
    "Successfully configured "@ + direction_word(is_input) + " device '"@ + name + "' with "@
        + settings_text(c)
}

fn push_settings(s: &mut String, c: &AudioConfig)
    ensures
        final(s)@ == old(s)@ + settings_text(c@),
{
    s.append("sample_rate=");
    push_decimal(s, c.sample_rate as u64);
    s.append(", channels=");
    push_decimal(s, c.channels as u64);
    s.append(", format=");
    s.append(c.sample_format.as_str());
    proof {
        assert(final(s)@ =~= old(s)@ + settings_text(c@));
    }
}

/// Applies a request to use `config` on the device `device_name`, whose
/// supported ranges are `ranges`. A configuration the device does not
/// support is refused and nothing changes; otherwise the device and the
/// configuration become the selection of their direction, the other
/// direction is left as it was, and a confirmation is returned.
pub fn select_device_config(
    state: &mut AudioState,
    device_name: String,
    is_input: bool,
    config: AudioConfig,
    ranges: &Vec<ConfigRange>,
) -> (r: Result<String, String>)
    ensures
        !within_some_range(ranges@, config@) ==> {
            &&& r matches Err(m) && m@ == refused_message(device_name@, config@)
            &&& final(state).selected_input_device == old(state).selected_input_device
            &&& final(state).selected_output_device == old(state).selected_output_device
            &&& final(state).input_config == old(state).input_config
            &&& final(state).output_config == old(state).output_config
        },
        within_some_range(ranges@, config@) ==> {
            &&& r matches Ok(m) && m@ == configured_message(device_name@, is_input, config@)
            &&& is_input ==> {
                &&& final(state).selected_input_device == Some(device_name)
                &&& final(state).input_config == Some(config)
                &&& final(state).selected_output_device == old(state).selected_output_device
                &&& final(state).output_config == old(state).output_config
            }
            &&& !is_input ==> {
                &&& final(state).selected_output_device == Some(device_name)
                &&& final(state).output_config == Some(config)
                &&& final(state).selected_input_device == old(state).selected_input_device
                &&& final(state).input_config == old(state).input_config
            }
        },
{
    if !config_supported(&config, ranges) {
        let mut m = String::new();
        m.append("Configuration not supported by device '");
        m.append(device_name.as_str());
        m.append("': ");
        push_settings(&mut m, &config);
        proof {
            assert(m@ =~= refused_message(device_name@, config@));
        }
        return Err(m);
    }
    let mut m = String::new();
    m.append("Successfully configured ");
    if is_input {
        m.append("input");
    } else {
        m.append("output");
    }
    m.append(" device '");
    m.append(device_name.as_str());
    m.append("' with ");
    push_settings(&mut m, &config);
    proof {
        assert(m@ =~= configured_message(device_name@, is_input, config@));
    }
    if is_input {
        state.selected_input_device = Some(device_name);
        state.input_config = Some(config);
    } else {
        state.selected_output_device = Some(device_name);
        state.output_config = Some(config);
    }
    Ok(m)
}

/// Finds a device by name among the names the host reported (a device
/// whose name could not be read never matches): the first match.
pub fn find_device(names: &Vec<Option<String>>, wanted: &str) -> (r: Result<usize, String>)
    ensures
        match r {
            Ok(i) => i < names@.len() && (names@[i as int] matches Some(n) && n@ == wanted@) && forall|
                k: int,
            | 0 <= k < i ==> !(#[trigger] names@[k] matches Some(n) && n@ == wanted@),
            Err(m) => m@ == "Device '"@ + wanted@ + "' not found"@ && forall|k: int|
                0 <= k < names@.len() ==> !(#[trigger] names@[k] matches Some(n) && n@ == wanted@),
        },
{
    let mut i: usize = 0;
    while i < names.len()
        invariant
            0 <= i <= names.len(),
            forall|k: int| 0 <= k < i ==> !(#[trigger] names@[k] matches Some(n) && n@ == wanted@),
        decreases names.len() - i,
    {
        match &names[i] {
            Some(n) => {
                if str_eq(n.as_str(), wanted) {
                    return Ok(i);
                }
            },
            None => {},
        }
        i = i + 1;
    }
    let mut m = String::new();
    m.append("Device '");
    m.append(wanted);
    m.append("' not found");
    Err(m)
}

/// Describes one device: whether it is the host's default is decided by
/// comparing names, and its offered configurations are those of its
/// direction.
pub fn describe_device(
    name: String,
    is_input: bool,
    default_name: &Option<String>,
    ranges: &Vec<ConfigRange>,
    default_config: Option<AudioConfig>,
) -> (d: AudioDevice)
    ensures
        d.name == name,
        d.is_input == is_input,
        d.is_default == (default_name matches Some(n) && n@ == name@),
        config_views(d.supported_configs@) == (if is_input {
            input_configs_spec(ranges@)
        } else {
            output_configs_spec(ranges@)
        }),
        d.default_config == default_config,
{
    let is_default = match default_name {
        Some(n) => str_eq(n.as_str(), name.as_str()),
        None => false,
    };
    let supported_configs = if is_input {
        input_configs(ranges)
    } else {
        output_configs(ranges)
    };
    AudioDevice { name, is_input, is_default, supported_configs, default_config }
}

} // verus!
