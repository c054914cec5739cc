//! Planning of the generated audio test files: the signal kinds, which
//! combinations can be generated below the Nyquist frequency, the names of
//! the files, and the tally of a generation run.
use vstd::prelude::*;
use crate::text::{decimal, push_decimal, str_contains, contains_seq};

verus! {

/// The test signals.
#[derive(PartialEq, Eq, Structural, Clone, Copy, Debug)]
pub enum SignalKind {
    /// One identification tone per channel.
    Id,
    /// A 1 kHz tone, for distortion.
    Thd1k,
    /// A 100 Hz tone, for low-frequency distortion.
    Thd100,
    /// The SMPTE two-tone intermodulation signal (60 Hz and 7 kHz).
    ImdSmpte,
    /// The CCIF two-tone intermodulation signal (19 kHz and 20 kHz).
    ImdCcif,
    /// A logarithmic sweep from 20 Hz to 20 kHz.
    Sweep,
}

/// The name of a signal, used in file and directory names.
pub open spec fn signal_name(k: SignalKind) -> Seq<char> {
    match k {
        SignalKind::Id => "id"@,
        SignalKind::Thd1k => "thd1k"@,
        SignalKind::Thd100 => "thd100"@,
        SignalKind::ImdSmpte => "imd_smpte"@,
        SignalKind::ImdCcif => "imd_ccif"@,
        SignalKind::Sweep => "sweep"@,
    }
}

/// Every signal, in the order they are generated.
pub open spec fn all_signals() -> Seq<SignalKind> {
    seq![
        SignalKind::Id,
        SignalKind::Thd1k,
        SignalKind::Thd100,
        SignalKind::ImdSmpte,
        SignalKind::ImdCcif,
        SignalKind::Sweep,
    ]
}

impl SignalKind {
    /// See [`signal_name`].
    pub fn as_str(&self) -> (s: &'static str)
        ensures
            s@ == signal_name(*self),
    {
        match self {
            SignalKind::Id => "id",
            SignalKind::Thd1k => "thd1k",
            SignalKind::Thd100 => "thd100",
            SignalKind::ImdSmpte => "imd_smpte",
            SignalKind::ImdCcif => "imd_ccif",
            SignalKind::Sweep => "sweep",
        }
    }

    /// Every signal, in the order they are generated.
    pub fn all() -> (v: Vec<SignalKind>)
        ensures
            v@ == all_signals(),
    {
        let mut v: Vec<SignalKind> = Vec::new();
        v.push(SignalKind::Id);
        v.push(SignalKind::Thd1k);
        v.push(SignalKind::Thd100);
        v.push(SignalKind::ImdSmpte);
        v.push(SignalKind::ImdCcif);
        v.push(SignalKind::Sweep);
        v
    }
}

/// The list of signals a run generates: those asked for, or all when none
/// is.
pub fn signals_to_generate(requested: &Vec<SignalKind>) -> (v: Vec<SignalKind>)
    ensures
        v@ == (if requested@.len() == 0 {
            all_signals()
        } else {
            requested@
        }),
{
    if requested.len() == 0 {
        SignalKind::all()
    } else {
        requested.clone()
    }
}

/// Frequency in Hz of the identification tone of channel `ch` (from 0):
/// 300 Hz steps, capped at 6 kHz.
pub open spec fn id_frequency(ch: int) -> int {
    if 300 * (ch + 1) < 6000 {
        300 * (ch + 1)
    } else {
        6000
    }
}

/// The identification tone frequencies of `channels` channels.
pub fn id_frequencies(channels: u16) -> (v: Vec<u32>)
    ensures
        v@.len() == channels,
        forall|ch: int| 0 <= ch < channels ==> #[trigger] v@[ch] == id_frequency(ch),
{
    let mut v: Vec<u32> = Vec::new();
    let mut ch: u16 = 0;
    while ch < channels
        invariant
            0 <= ch <= channels,
            v@.len() == ch,
            forall|k: int| 0 <= k < ch ==> #[trigger] v@[k] == id_frequency(k),
        decreases channels - ch,
    {
        let f: u32 = if (ch as u32 + 1) * 300 < 6000 { (ch as u32 + 1) * 300 } else { 6000 };
        v.push(f);
        ch = ch + 1;
    }
    v
}

/// The highest identification frequency for `channels` channels (zero
/// when there is none).
pub open spec fn max_id_frequency(channels: int) -> int {
    if channels == 0 {
        0
    } else {
        id_frequency(channels - 1)
    }
}

/// The frequency that must stay below the Nyquist frequency for a signal.
pub open spec fn highest_frequency(k: SignalKind, channels: int) -> int {
    match k {
        SignalKind::Id => max_id_frequency(channels),
        SignalKind::Thd1k => 1000,
        SignalKind::Thd100 => 100,
        SignalKind::ImdSmpte => 7000,
        SignalKind::ImdCcif => 20000,
        SignalKind::Sweep => 20000,
    }
}

/// The Nyquist frequency of a rate as it is printed: half the rate, with
/// `.5` for an odd rate.
pub open spec fn nyquist_text(sr: u32) -> Seq<char> {
    decimal((sr / 2) as nat) + (if sr % 2 == 1 {
        ".5"@
    } else {
        Seq::empty()
    })
}

/// How a signal's top frequency is named in a Nyquist message.
pub open spec fn top_frequency_text(k: SignalKind, channels: int) -> Seq<char> {
    match k {
        SignalKind::Id => "max ID freq "@ + decimal(max_id_frequency(channels) as nat) + " Hz"@,
        SignalKind::Thd1k => "1000 Hz"@,
        SignalKind::Thd100 => "100 Hz"@,
        SignalKind::ImdSmpte => "7000 Hz"@,
        SignalKind::ImdCcif => "20 kHz"@,
        SignalKind::Sweep => "sweep end 20 kHz"@,
    }
}

/// The message for a signal whose top frequency reaches the Nyquist
/// frequency.
pub open spec fn nyquist_message(k: SignalKind, channels: int, sr: u32) -> Seq<char> {
    "Nyquist violation: "@ + top_frequency_text(k, channels) + " >= "@ + nyquist_text(sr)
        + " Hz (skipped)"@
}

fn max_id_frequency_of(channels: u16) -> (f: u32)
    ensures
        f == max_id_frequency(channels as int),
{
    if channels == 0 {
        0
    } else if (channels as u32) * 300 < 6000 {
        (channels as u32) * 300
    } else {
        6000
    }
}

/// Whether `text` ends with the number and unit `w`, the number not being
/// the tail of a longer one.
pub open spec fn ends_with_quantity(text: Seq<char>, w: Seq<char>) -> bool {
    let j = text.len() - w.len();
    &&& 0 <= j
    &&& text.skip(j) == w
    &&& (j == 0 || !('0' <= text[j - 1] <= '9'))
}

/// Whether `text` ends by writing the frequency `f`: as `f Hz`, or, for a
/// whole number of kilohertz, as `f/1000 kHz`.
pub open spec fn writes_frequency(text: Seq<char>, f: int) -> bool {
    &&& f >= 0
    &&& {
        ||| ends_with_quantity(text, decimal(f as nat) + " Hz"@)
        ||| f % 1000 == 0 && ends_with_quantity(text, decimal((f / 1000) as nat) + " kHz"@)
    }
}

/// A Nyquist refusal names the frequency that was checked: the top
/// frequency its message gives is the one compared with the rate.
pub proof fn lemma_refusal_names_the_checked_frequency(k: SignalKind, channels: int)
    requires
        channels >= 0,
    ensures
        writes_frequency(top_frequency_text(k, channels), highest_frequency(k, channels)),
{
    reveal_strlit("max ID freq ");
    reveal_strlit(" Hz");
    reveal_strlit(" kHz");
    reveal_strlit("1000 Hz");
    reveal_strlit("100 Hz");
    reveal_strlit("7000 Hz");
    reveal_strlit("20 kHz");
    reveal_strlit("sweep end 20 kHz");
    reveal_strlit("sweep end ");
    reveal_with_fuel(decimal, 5);
    let t = top_frequency_text(k, channels);
    match k {
        SignalKind::Id => {
            let f = max_id_frequency(channels);
            let w = decimal(f as nat) + " Hz"@;
            let p = "max ID freq "@;
            assert(f >= 0);
            assert(t =~= p + w);
            assert(t.skip(p.len() as int) =~= w);
            assert(t[p.len() - 1] == ' ');
        },
        SignalKind::Thd1k => {
            assert(t =~= decimal(1000) + " Hz"@);
            assert(t.skip(0) =~= t);
        },
        SignalKind::Thd100 => {
            assert(t =~= decimal(100) + " Hz"@);
            assert(t.skip(0) =~= t);
        },
        SignalKind::ImdSmpte => {
            assert(t =~= decimal(7000) + " Hz"@);
            assert(t.skip(0) =~= t);
        },
        SignalKind::ImdCcif => {
            assert(t =~= decimal(20) + " kHz"@);
            assert(t.skip(0) =~= t);
        },
        SignalKind::Sweep => {
            let w = decimal(20) + " kHz"@;
            assert(t =~= "sweep end "@ + w);
            assert(t.skip(10) =~= w);
            assert(t[9] == ' ');
        },
    }
}

/// The sweep ends at 20 kHz and the CCIF tones reach 20 kHz, so either
/// signal can be generated exactly at rates above 40 kHz, whatever the
/// channel count.
pub proof fn lemma_twenty_kilohertz_signals_need_rates_above_40_khz(channels: int, sr: u32)
    ensures
        2 * highest_frequency(SignalKind::Sweep, channels) < sr <==> 40000 < sr,
        2 * highest_frequency(SignalKind::ImdCcif, channels) < sr <==> 40000 < sr,
{
}

/// Whether a signal can be generated at rate `sr`: its top frequency must
/// stay strictly below half the rate. A signal that cannot is skipped with
/// a message saying why.
pub fn check_nyquist(k: SignalKind, channels: u16, sr: u32) -> (r: Result<(), String>)
    ensures
        2 * highest_frequency(k, channels as int) < sr ==> r is Ok,
        2 * highest_frequency(k, channels as int) >= sr ==> (r matches Err(m) && m@
            == nyquist_message(k, channels as int, sr)),
{
    let top: u32 = match k {
        SignalKind::Id => max_id_frequency_of(channels),
        SignalKind::Thd1k => 1000,
        SignalKind::Thd100 => 100,
        SignalKind::ImdSmpte => 7000,
        SignalKind::ImdCcif => 20000,
        SignalKind::Sweep => 20000,
    };
    if (top as u64) * 2 < sr as u64 {
        return Ok(());
    }
    let mut m = String::new();
    m.append("Nyquist violation: ");
    match k {
        SignalKind::Id => {
            m.append("max ID freq ");
            push_decimal(&mut m, top as u64);
            m.append(" Hz");
        },
        SignalKind::Thd1k => m.append("1000 Hz"),
        SignalKind::Thd100 => m.append("100 Hz"),
        SignalKind::ImdSmpte => m.append("7000 Hz"),
        SignalKind::ImdCcif => m.append("20 kHz"),
        SignalKind::Sweep => m.append("sweep end 20 kHz"),
    }
    m.append(" >= ");
    push_decimal(&mut m, (sr / 2) as u64);
    if sr % 2 == 1 {
        m.append(".5");
    }
    m.append(" Hz (skipped)");
    proof {
        assert(m@ =~= nyquist_message(k, channels as int, sr));
    }
    Err(m)
}

/// Whether a channel count can be generated: from 1 to 16.
pub open spec fn channels_in_range(channels: u16) -> bool {
    1 <= channels <= 16
}

/// See [`channels_in_range`].
pub fn channel_count_allowed(channels: u16) -> (b: bool)
    ensures
        b == channels_in_range(channels),
{
    1 <= channels && channels <= 16
}

/// The message for a bit depth other than 16 or 24.
pub open spec fn bit_depth_message(bits: u16) -> Seq<char> {
    "Bit depth must be 16 or 24, got "@ + decimal(bits as nat)
}

/// Checks the requested bit depths: the first one other than 16 or 24 is
/// refused.
pub fn check_bit_depths(bits: &Vec<u16>) -> (r: Result<(), String>)
    ensures
        match r {
            Ok(()) => forall|i: int| 0 <= i < bits@.len() ==> #[trigger] bits@[i] == 16 || bits@[i] == 24,
            Err(m) => exists|i: int|
                0 <= i < bits@.len() && #[trigger] bits@[i] != 16 && bits@[i] != 24 && m@
                    == bit_depth_message(bits@[i]) && forall|j: int|
                    0 <= j < i ==> #[trigger] bits@[j] == 16 || bits@[j] == 24,
        },
{
    let mut i: usize = 0;
    while i < bits.len()
        invariant
            0 <= i <= bits.len(),
            forall|j: int| 0 <= j < i ==> #[trigger] bits@[j] == 16 || bits@[j] == 24,
        decreases bits.len() - i,
    {
        let b = bits[i];
        if b != 16 && b != 24 {
            let mut m = String::new();
            m.append("Bit depth must be 16 or 24, got ");
            push_decimal(&mut m, b as u64);
            assert(bits@[i as int] != 16 && bits@[i as int] != 24);
            return Err(m);
        }
        i = i + 1;
    }
    Ok(())
}

/// The file name of a generated signal.
pub open spec fn wav_file_name(k: SignalKind, channels: u16, sr: u32, bits: u16) -> Seq<char> {
    signal_name(k) + "_ch"@ + decimal(channels as nat) + "_sr"@ + decimal(sr as nat) + "_b"@
        + decimal(bits as nat) + ".wav"@
}

/// See [`wav_file_name`].
pub fn wav_filename(k: SignalKind, channels: u16, sr: u32, bits: u16) -> (s: String)
    ensures
        s@ == wav_file_name(k, channels, sr, bits),
{
    let mut s = String::new();
    s.append(k.as_str());
    s.append("_ch");
    push_decimal(&mut s, channels as u64);
    s.append("_sr");
    push_decimal(&mut s, sr as u64);
    s.append("_b");
    push_decimal(&mut s, bits as u64);
    s.append(".wav");
    proof {
        assert(s@ =~= wav_file_name(k, channels, sr, bits));
    }
    s
}

/// Whether a failure message reports a skipped combination rather than a
/// failure: it mentions `Nyquist` or `skipped`.
pub open spec fn is_skip_message(m: Seq<char>) -> bool {
    contains_seq(m, "Nyquist"@) || contains_seq(m, "skipped"@)
}

/// The tally of a generation run.
#[derive(PartialEq, Eq, Structural, Clone, Copy, Debug)]
pub struct GenerationStats {
    /// Files written.
    pub generated: usize,
    /// Combinations skipped.
    pub skipped: usize,
    /// Combinations that failed.
    pub failed: usize,
}

impl GenerationStats {
    /// An empty tally.
    pub fn new() -> (s: GenerationStats)
        ensures
            s == (GenerationStats { generated: 0, skipped: 0, failed: 0 }),
    {
        GenerationStats { generated: 0, skipped: 0, failed: 0 }
    }

    /// Counts a written file.
    pub fn record_generated(&mut self)
        requires
            old(self).generated < usize::MAX,
        ensures
            *final(self) == (GenerationStats { generated: (old(self).generated + 1) as usize, ..*old(self) }),
    {
        self.generated = self.generated + 1;
    }

    /// Counts a skipped combination.
    pub fn record_skipped(&mut self)
        requires
            old(self).skipped < usize::MAX,
        ensures
            *final(self) == (GenerationStats { skipped: (old(self).skipped + 1) as usize, ..*old(self) }),
    {
        self.skipped = self.skipped + 1;
    }

    /// Counts a combination that did not produce a file: as skipped when
    /// its message says so, else as failed.
    pub fn record_error(&mut self, message: &str)
        requires
            old(self).skipped < usize::MAX,
            old(self).failed < usize::MAX,
        ensures
            is_skip_message(message@) ==> *final(self) == (GenerationStats {
                skipped: (old(self).skipped + 1) as usize,
                ..*old(self)
            }),
            !is_skip_message(message@) ==> *final(self) == (GenerationStats {
                failed: (old(self).failed + 1) as usize,
                ..*old(self)
            }),
    {
        if str_contains(message, "Nyquist") || str_contains(message, "skipped") {
            self.skipped = self.skipped + 1;
        } else {
            self.failed = self.failed + 1;
        }
    }
}

/// A Nyquist refusal is always counted as a skip.
pub proof fn lemma_nyquist_refusal_is_skip(k: SignalKind, channels: int, sr: u32)
    ensures
        is_skip_message(nyquist_message(k, channels, sr)),
{
    let m = nyquist_message(k, channels, sr);
    reveal_strlit("Nyquist violation: ");
    reveal_strlit("Nyquist");
    assert(m.subrange(0, 7) =~= "Nyquist"@);
    assert(m.subrange(0, 0 + "Nyquist"@.len() as int) == "Nyquist"@);
    assert(contains_seq(m, "Nyquist"@));
}

} // verus!
