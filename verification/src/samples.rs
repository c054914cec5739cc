//! Frame layout of multichannel audio: interleaving one buffer per channel
//! into frames, and spreading a mono signal over several channels.
use vstd::prelude::*;
use vstd::arithmetic::div_mod::lemma_fundamental_div_mod_converse;

verus! {

/// The contents of per-channel buffers.
pub open spec fn planes_of<T>(v: Seq<Vec<T>>) -> Seq<Seq<T>> {
    v.map_values(|b: Vec<T>| b@)
}

/// `frames` frames taken from per-channel buffers: sample `k` is frame
/// `k / n` of channel `k % n`, for `n` channels.
pub open spec fn interleaved<T>(planes: Seq<Seq<T>>, frames: int) -> Seq<T> {
    let n = planes.len() as int;
    Seq::new((frames * n) as nat, |k: int| planes[k % n][k / n])
}

/// A mono signal repeated on `channels` channels: sample `k` is sample
/// `k / channels` of the signal.
pub open spec fn replicated<T>(mono: Seq<T>, channels: int) -> Seq<T> {
    Seq::new((mono.len() * channels) as nat, |k: int| mono[k / channels])
}

proof fn lemma_frame_index(frame: int, ch: int, n: int)
    requires
        0 <= ch < n,
        0 <= frame,
    ensures
        (frame * n + ch) % n == ch,
        (frame * n + ch) / n == frame,
{
    lemma_fundamental_div_mod_converse(frame * n + ch, n, frame, ch);
}

/// Interleaves one buffer per channel into frames: frame after frame, the
/// channels in order. The frame count is that of the first channel; with
/// no channel the result is empty.
pub fn interleave<T: Copy>(per_channel: &Vec<Vec<T>>) -> (r: Vec<T>)
    requires
        per_channel@.len() > 0 ==> forall|c: int|
            0 <= c < per_channel@.len() ==> #[trigger] per_channel@[c]@.len()
                >= per_channel@[0]@.len(),
    ensures
        per_channel@.len() == 0 ==> r@.len() == 0,
        per_channel@.len() > 0 ==> r@ == interleaved(
            planes_of(per_channel@),
            per_channel@[0]@.len() as int,
        ),
{
    let n_channels = per_channel.len();
    if n_channels == 0 {
        return Vec::new();
    }
    let n_frames = per_channel[0].len();
    let ghost planes = planes_of(per_channel@);
    let ghost n = n_channels as int;
    let mut out: Vec<T> = Vec::new();
    let mut frame: usize = 0;
    while frame < n_frames
        invariant
            n == n_channels == per_channel@.len() > 0,
            planes == planes_of(per_channel@),
            n_frames == per_channel@[0]@.len(),
            forall|c: int|
                0 <= c < per_channel@.len() ==> #[trigger] per_channel@[c]@.len() >= n_frames,
            0 <= frame <= n_frames,
            out@.len() == frame * n,
            forall|k: int| 0 <= k < out@.len() ==> #[trigger] out@[k] == planes[k % n][k / n],
        decreases n_frames - frame,
    {
        let mut ch: usize = 0;
        while ch < n_channels
            invariant
                n == n_channels == per_channel@.len() > 0,
                planes == planes_of(per_channel@),
                forall|c: int|
                    0 <= c < per_channel@.len() ==> #[trigger] per_channel@[c]@.len() >= n_frames,
                0 <= frame < n_frames,
                0 <= ch <= n_channels,
                out@.len() == frame * n + ch,
                forall|k: int| 0 <= k < out@.len() ==> #[trigger] out@[k] == planes[k % n][k / n],
            decreases n_channels - ch,
        {
            proof {
                lemma_frame_index(frame as int, ch as int, n);
                assert(per_channel@[ch as int]@.len() >= n_frames);
            }
            out.push(per_channel[ch][frame]);
            ch = ch + 1;
        }
        proof {
            assert((frame + 1) * n == frame * n + n) by (nonlinear_arith);
        }
        frame = frame + 1;
    }
    proof {
        assert(out@ =~= interleaved(planes, n_frames as int));
    }
    out
}

/// Repeats every sample of a mono signal on `channels` channels.
pub fn replicate_mono<T: Copy>(mono: &Vec<T>, channels: u16) -> (r: Vec<T>)
    ensures
        r@ == replicated(mono@, channels as int),
{
    let ghost n = channels as int;
    let mut out: Vec<T> = Vec::new();
    let mut i: usize = 0;
    while i < mono.len()
        invariant
            n == channels,
            0 <= i <= mono.len(),
            out@.len() == i * n,
            forall|k: int| 0 <= k < out@.len() ==> #[trigger] out@[k] == mono@[k / n],
        decreases mono.len() - i,
    {
        let sample = mono[i];
        let mut c: u16 = 0;
        while c < channels
            invariant
                n == channels,
                0 <= i < mono.len(),
                sample == mono@[i as int],
                0 <= c <= channels,
                out@.len() == i * n + c,
                forall|k: int| 0 <= k < out@.len() ==> #[trigger] out@[k] == mono@[k / n],
            decreases channels - c,
        {
            proof {
                lemma_frame_index(i as int, c as int, n);
            }
            out.push(sample);
            c = c + 1;
        }
        proof {
            assert((i + 1) * n == i * n + n) by (nonlinear_arith);
        }
        i = i + 1;
    }
    proof {
        assert(mono@.len() * n == n * mono@.len()) by (nonlinear_arith);
        assert(out@ =~= replicated(mono@, n));
    }
    out
}

/// Spreading a mono signal over `channels` channels lays out the same
/// samples as interleaving `channels` copies of it.
pub proof fn lemma_replicate_is_interleave_of_copies<T>(mono: Seq<T>, channels: int)
    requires
        channels > 0,
    ensures
        replicated(mono, channels) == interleaved(
            Seq::new(channels as nat, |c: int| mono),
            mono.len() as int,
        ),
{
    let planes = Seq::new(channels as nat, |c: int| mono);
    assert(mono.len() * channels == mono.len() * planes.len());
    let a = replicated(mono, channels);
    let b = interleaved(planes, mono.len() as int);
    assert forall|k: int| 0 <= k < a.len() implies a[k] == b[k] by {
        assert(0 <= k % channels < channels) by (nonlinear_arith)
            requires
                channels > 0,
        ;
    }
    assert(a =~= b);
}

} // verus!
