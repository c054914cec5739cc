//! Decisions of the command-line player: reading filter specifications,
//! the loudness-compensation values, the buffer size, and when the
//! monitoring of a playing stream stops.
use vstd::prelude::*;
use crate::text::{chars_of, push_char};

verus! {

/// The fields of `s` separated by `sep` (`str::split` with a character):
/// an empty text has one empty field.
pub open spec fn split_on(s: Seq<char>, sep: char) -> Seq<Seq<char>>
    decreases s.len(),
{
    if s.len() == 0 {
        seq![Seq::<char>::empty()]
    } else {
        let prev = split_on(s.drop_last(), sep);
        if s.last() == sep {
            prev.push(Seq::empty())
        } else {
            prev.update(prev.len() - 1, prev.last().push(s.last()))
        }
    }
}

proof fn lemma_split_nonempty(s: Seq<char>, sep: char)
    ensures
        split_on(s, sep).len() >= 1,
    decreases s.len(),
{
    if s.len() > 0 {
        lemma_split_nonempty(s.drop_last(), sep);
    }
}

/// Fields joined back with `sep` between them.
pub open spec fn join_with(parts: Seq<Seq<char>>, sep: char) -> Seq<char>
    decreases parts.len(),
{
    if parts.len() == 0 {
        Seq::empty()
    } else if parts.len() == 1 {
        parts[0]
    } else {
        join_with(parts.drop_last(), sep).push(sep) + parts.last()
    }
}

proof fn lemma_join_extend_last(parts: Seq<Seq<char>>, sep: char, c: char)
    requires
        parts.len() >= 1,
    ensures
        join_with(parts.update(parts.len() - 1, parts.last().push(c)), sep) == join_with(parts, sep).push(c),
{
    let q = parts.update(parts.len() - 1, parts.last().push(c));
    if parts.len() > 1 {
        assert(q.drop_last() =~= parts.drop_last());
        assert(join_with(q, sep) =~= join_with(parts, sep).push(c));
    }
}

/// Joining the fields of a text with the separator gives the text back.
pub proof fn lemma_split_then_join(s: Seq<char>, sep: char)
    ensures
        join_with(split_on(s, sep), sep) == s,
    decreases s.len(),
{
    if s.len() == 0 {
        assert(join_with(split_on(s, sep), sep) =~= s);
    } else {
        let p = s.drop_last();
        lemma_split_then_join(p, sep);
        lemma_split_nonempty(p, sep);
        let prev = split_on(p, sep);
        if s.last() == sep {
            let q = prev.push(Seq::<char>::empty());
            assert(q.drop_last() =~= prev);
            assert(join_with(q, sep) =~= s);
        } else {
            lemma_join_extend_last(prev, sep, s.last());
            assert(p.push(s.last()) =~= s);
        }
    }
}

/// The views of a list of strings.
pub open spec fn string_views(v: Seq<String>) -> Seq<Seq<char>> {
    v.map_values(|x: String| x@)
}

/// Splits a text at every `sep`.
pub fn split_fields(s: &str, sep: char) -> (parts: Vec<String>)
    ensures
        string_views(parts@) == split_on(s@, sep),
{
    let chars = chars_of(s);
    let mut parts: Vec<String> = Vec::new();
    let mut cur = String::new();
    let mut i: usize = 0;
    while i < chars.len()
        invariant
            chars@ == s@,
            0 <= i <= chars.len(),
            string_views(parts@).push(cur@) == split_on(s@.take(i as int), sep),
        decreases chars.len() - i,
    {
        let c = chars[i];
        proof {
            assert(s@.take(i + 1).drop_last() =~= s@.take(i as int));
            assert(s@.take(i + 1).last() == c);
            lemma_split_nonempty(s@.take(i as int), sep);
        }
        let ghost prev_views = string_views(parts@);
        let ghost prev_cur = cur@;
        if c == sep {
            let done = cur;
            parts.push(done);
            cur = String::new();
            proof {
                assert(string_views(parts@) =~= prev_views.push(prev_cur));
                assert(string_views(parts@).push(cur@) =~= split_on(s@.take(i + 1), sep));
            }
        } else {
            push_char(&mut cur, c);
            proof {
                assert(string_views(parts@).push(cur@) =~= split_on(s@.take(i + 1), sep));
            }
        }
        i = i + 1;
    }
    let ghost prev_views = string_views(parts@);
    parts.push(cur);
    proof {
        assert(s@.take(chars@.len() as int) =~= s@);
        assert(string_views(parts@) =~= prev_views.push(parts@.last()@));
    }
    parts
}

/// The message for a filter specification without exactly three fields.
pub open spec fn filter_format_message(s: Seq<char>) -> Seq<char> {
    "Invalid filter format '"@ + s + "'. Expected 'freq:q:gain'"@
}

/// Splits a filter written `freq:q:gain` into its three fields, which the
/// caller reads as numbers.
pub fn filter_fields(s: &str) -> (r: Result<(String, String, String), String>)
    ensures
        split_on(s@, ':').len() == 3 ==> (r matches Ok((f, q, g)) && f@ == split_on(s@, ':')[0]
            && q@ == split_on(s@, ':')[1] && g@ == split_on(s@, ':')[2]),
        split_on(s@, ':').len() != 3 ==> (r matches Err(m) && m@ == filter_format_message(s@)),
{
    let mut parts = split_fields(s, ':');
    if parts.len() != 3 {
        let mut m = String::new();
        m.append("Invalid filter format '");
        m.append(s);
        m.append("'. Expected 'freq:q:gain'");
        return Err(m);
    }
    let ghost v = parts@;
    assert(string_views(v)[0] == v[0]@ && string_views(v)[1] == v[1]@ && string_views(v)[2] == v[2]@);
    let g = parts.pop().unwrap();
    let q = parts.pop().unwrap();
    let f = parts.pop().unwrap();
    Ok((f, q, g))
}

/// Reads the loudness-compensation values: `REF,LOW` (the high shelf
/// taking the low value) or `REF,LOW,HIGH`.
pub fn loudness_values<T: Copy>(vals: &Vec<T>) -> (r: Result<(T, T, T), String>)
    ensures
        vals@.len() == 2 ==> r == Ok::<(T, T, T), String>((vals@[0], vals@[1], vals@[1])),
        vals@.len() == 3 ==> r == Ok::<(T, T, T), String>((vals@[0], vals@[1], vals@[2])),
        vals@.len() != 2 && vals@.len() != 3 ==> (r matches Err(m) && m@
            == "Expected 2 or 3 values: REF,LOW[,HIGH]"@),
{
    if vals.len() == 2 {
        Ok((vals[0], vals[1], vals[1]))
    } else if vals.len() == 3 {
        Ok((vals[0], vals[1], vals[2]))
    } else {
        let mut m = String::new();
        m.append("Expected 2 or 3 values: REF,LOW[,HIGH]");
        Err(m)
    }
}

/// The playback buffer: the requested number of 1024-frame chunks kept
/// between 32 and 1024, and the frames it holds.
pub fn buffer_plan(chunks: usize) -> (r: (usize, usize))
    ensures
        r.0 == (if chunks < 32 { 32 } else if chunks > 1024 { 1024 } else { chunks }),
        r.1 == r.0 * 1024,
{
    let c = if chunks < 32 {
        32
    } else if chunks > 1024 {
        1024
    } else {
        chunks
    };
    (c, c * 1024)
}

/// The states of a streaming player.
#[derive(PartialEq, Eq, Structural, Clone, Copy, Debug)]
pub enum StreamingState {
    /// Nothing loaded or playback over.
    Idle,
    /// Opening the file.
    Loading,
    /// Ready to play.
    Ready,
    /// Playing.
    Playing,
    /// Paused.
    Paused,
    /// Seeking.
    Seeking,
    /// Failed.
    Error,
}

/// What the monitor does after looking at the player once.
#[derive(PartialEq, Eq, Structural, Clone, Copy, Debug)]
pub struct MonitorStep {
    /// The state to compare with next time.
    pub last: StreamingState,
    /// A state change to report.
    pub announce: Option<StreamingState>,
    /// The stream is over (it failed or went idle): stop now.
    pub ended: bool,
    /// Playback went idle after playing.
    pub finished_playing: bool,
    /// The requested duration is reached: stop after this look.
    pub timed_out: bool,
}

/// One look at the player: a change to `Error` or `Idle` ends the
/// monitoring; any change is reported; a non-zero `duration` (seconds)
/// ends it once that much time has passed.
pub fn monitor_step(last: StreamingState, current: StreamingState, elapsed: u64, duration: u64) -> (s: MonitorStep)
    ensures
        s.announce == (if current != last { Some(current) } else { None::<StreamingState> }),
        s.ended == (current != last && (current == StreamingState::Error || current == StreamingState::Idle)),
        s.finished_playing == (current != last && current == StreamingState::Idle && last == StreamingState::Playing),
        s.last == (if s.ended { last } else { current }),
        s.timed_out == (duration > 0 && elapsed >= duration),
{
    let changed = current != last;
    let ended = changed && (current == StreamingState::Error || current == StreamingState::Idle);
    MonitorStep {
        last: if ended { last } else { current },
        announce: if changed { Some(current) } else { None },
        ended,
        finished_playing: changed && current == StreamingState::Idle && last == StreamingState::Playing,
        timed_out: duration > 0 && elapsed >= duration,
    }
}

} // verus!
