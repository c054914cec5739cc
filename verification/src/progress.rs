//! Progress reporting of a differential-evolution run: when a generation
//! is reported, how a stall is shown, and the final status line.
use vstd::prelude::*;

verus! {

/// How a generation's best value compares with the best seen before.
#[derive(PartialEq, Eq, Structural, Clone, Copy, Debug)]
pub enum ProgressMark {
    /// The best value improved.
    Improved,
    /// No improvement for fewer than 50 generations.
    Flat,
    /// No improvement for this many generations, 50 or more.
    Stalled(usize),
}

/// What to print for one generation.
#[derive(PartialEq, Eq, Structural, Clone, Copy, Debug)]
pub struct ProgressReport {
    /// How the generation compares with the best so far.
    pub mark: ProgressMark,
    /// Whether the generation's line is printed.
    pub print_line: bool,
    /// Whether the best parameters are printed too.
    pub print_params: bool,
}

/// Counts the generations since the last improvement.
#[derive(PartialEq, Eq, Structural, Clone, Copy, Debug)]
pub struct StallTracker {
    /// Generations since the best value last improved.
    pub stall_count: usize,
}

impl StallTracker {
    /// A tracker before the first generation.
    pub fn new() -> (t: StallTracker)
        ensures
            t.stall_count == 0,
    {
        StallTracker { stall_count: 0 }
    }

    /// Takes generation `iter`, which improved the best value or not. An
    /// improvement resets the stall count; the line is printed every tenth
    /// generation, at the first generation of a stall and every 25 stalled
    /// generations (an improvement counts as a multiple of 25); the
    /// parameters every hundredth generation.
    pub fn observe(&mut self, iter: usize, improved: bool) -> (r: ProgressReport)
        requires
            improved || old(self).stall_count < usize::MAX,
        ensures
            final(self).stall_count == (if improved { 0 } else { old(self).stall_count + 1 }),
            r.mark == (if improved {
                ProgressMark::Improved
            } else if final(self).stall_count >= 50 {
                ProgressMark::Stalled(final(self).stall_count)
            } else {
                ProgressMark::Flat
            }),
            r.print_line == (iter % 10 == 0 || final(self).stall_count == 1 || final(self).stall_count
                % 25 == 0),
            r.print_params == (iter % 100 == 0),
    {
        let mark = if improved {
            self.stall_count = 0;
            ProgressMark::Improved
        } else {
            self.stall_count = self.stall_count + 1;
            if self.stall_count >= 50 {
                ProgressMark::Stalled(self.stall_count)
            } else {
                ProgressMark::Flat
            }
        };
        ProgressReport {
            mark,
            print_line: iter % 10 == 0 || self.stall_count == 1 || self.stall_count % 25 == 0,
            print_params: iter % 100 == 0,
        }
    }
}

/// The status line of a finished run.
pub open spec fn de_status_text(algo_name: Seq<char>, success: bool, message: Seq<char>) -> Seq<char> {
    "AutoEQ "@ + algo_name + ": "@ + message + (if success {
        Seq::empty()
    } else {
        " (not converged)"@
    })
}

/// See [`de_status_text`].
pub fn de_status(algo_name: &str, success: bool, message: &str) -> (s: String)
    ensures
        s@ == de_status_text(algo_name@, success, message@),
{
    let mut s = String::new();
    s.append("AutoEQ ");
    s.append(algo_name);
    s.append(": ");
    s.append(message);
    if !success {
        s.append(" (not converged)");
    }
    proof {
        assert(s@ =~= de_status_text(algo_name@, success, message@));
    }
    s
}

} // verus!
