//! The differential-evolution strategy names and the defaults of its
//! discrete settings.
use vstd::prelude::*;
use crate::text::{ascii_lower, eq_ignore_ascii_case, str_eq_ignore_ascii_case};

verus! {

/// How a differential-evolution run builds mutants and trial vectors.
#[derive(PartialEq, Eq, Structural, Clone, Copy, Debug)]
pub enum Strategy {
    /// best/1 mutation, binomial crossover.
    Best1Bin,
    /// best/1 mutation, exponential crossover.
    Best1Exp,
    /// rand/1 mutation, binomial crossover.
    Rand1Bin,
    /// rand/1 mutation, exponential crossover.
    Rand1Exp,
    /// rand/2 mutation, binomial crossover.
    Rand2Bin,
    /// rand/2 mutation, exponential crossover.
    Rand2Exp,
    /// current-to-best/1 mutation, binomial crossover.
    CurrentToBest1Bin,
    /// current-to-best/1 mutation, exponential crossover.
    CurrentToBest1Exp,
    /// best/2 mutation, binomial crossover.
    Best2Bin,
    /// best/2 mutation, exponential crossover.
    Best2Exp,
    /// rand-to-best/1 mutation, binomial crossover.
    RandToBest1Bin,
    /// rand-to-best/1 mutation, exponential crossover.
    RandToBest1Exp,
}

/// The strategy a name designates, ignoring ASCII case; several
/// strategies have short or separated aliases.
pub open spec fn strategy_named(t: Seq<char>) -> Option<Strategy> {
    if eq_ignore_ascii_case(t, "best1bin"@) || eq_ignore_ascii_case(t, "best1"@) {
        Some(Strategy::Best1Bin)
    } else if eq_ignore_ascii_case(t, "best1exp"@) {
        Some(Strategy::Best1Exp)
    } else if eq_ignore_ascii_case(t, "rand1bin"@) || eq_ignore_ascii_case(t, "rand1"@) {
        Some(Strategy::Rand1Bin)
    } else if eq_ignore_ascii_case(t, "rand1exp"@) {
        Some(Strategy::Rand1Exp)
    } else if eq_ignore_ascii_case(t, "rand2bin"@) || eq_ignore_ascii_case(t, "rand2"@) {
        Some(Strategy::Rand2Bin)
    } else if eq_ignore_ascii_case(t, "rand2exp"@) {
        Some(Strategy::Rand2Exp)
    } else if eq_ignore_ascii_case(t, "currenttobest1bin"@) || eq_ignore_ascii_case(t, "current-to-best1bin"@) || eq_ignore_ascii_case(t, "current_to_best1bin"@) {
        Some(Strategy::CurrentToBest1Bin)
    } else if eq_ignore_ascii_case(t, "currenttobest1exp"@) || eq_ignore_ascii_case(t, "current-to-best1exp"@) || eq_ignore_ascii_case(t, "current_to_best1exp"@) {
        Some(Strategy::CurrentToBest1Exp)
    } else if eq_ignore_ascii_case(t, "best2bin"@) || eq_ignore_ascii_case(t, "best2"@) {
        Some(Strategy::Best2Bin)
    } else if eq_ignore_ascii_case(t, "best2exp"@) {
        Some(Strategy::Best2Exp)
    } else if eq_ignore_ascii_case(t, "randtobest1bin"@) || eq_ignore_ascii_case(t, "rand-to-best1bin"@) || eq_ignore_ascii_case(t, "rand_to_best1bin"@) {
        Some(Strategy::RandToBest1Bin)
    } else if eq_ignore_ascii_case(t, "randtobest1exp"@) || eq_ignore_ascii_case(t, "rand-to-best1exp"@) || eq_ignore_ascii_case(t, "rand_to_best1exp"@) {
        Some(Strategy::RandToBest1Exp)
    } else {
        None
    }
}

/// The message for a name that designates no strategy.
pub open spec fn unknown_strategy_message(s: Seq<char>) -> Seq<char> {
    "unknown strategy: "@ + s
}

/// Every name the strategies are known by, with its strategy.
pub open spec fn strategy_aliases() -> Seq<(Seq<char>, Strategy)> {
    seq![
        ("best1bin"@, Strategy::Best1Bin),
        ("best1"@, Strategy::Best1Bin),
        ("best1exp"@, Strategy::Best1Exp),
        ("rand1bin"@, Strategy::Rand1Bin),
        ("rand1"@, Strategy::Rand1Bin),
        ("rand1exp"@, Strategy::Rand1Exp),
        ("rand2bin"@, Strategy::Rand2Bin),
        ("rand2"@, Strategy::Rand2Bin),
        ("rand2exp"@, Strategy::Rand2Exp),
        ("currenttobest1bin"@, Strategy::CurrentToBest1Bin),
        ("current-to-best1bin"@, Strategy::CurrentToBest1Bin),
        ("current_to_best1bin"@, Strategy::CurrentToBest1Bin),
        ("currenttobest1exp"@, Strategy::CurrentToBest1Exp),
        ("current-to-best1exp"@, Strategy::CurrentToBest1Exp),
        ("current_to_best1exp"@, Strategy::CurrentToBest1Exp),
        ("best2bin"@, Strategy::Best2Bin),
        ("best2"@, Strategy::Best2Bin),
        ("best2exp"@, Strategy::Best2Exp),
        ("randtobest1bin"@, Strategy::RandToBest1Bin),
        ("rand-to-best1bin"@, Strategy::RandToBest1Bin),
        ("rand_to_best1bin"@, Strategy::RandToBest1Bin),
        ("randtobest1exp"@, Strategy::RandToBest1Exp),
        ("rand-to-best1exp"@, Strategy::RandToBest1Exp),
        ("rand_to_best1exp"@, Strategy::RandToBest1Exp),
    ]
}

/// Length, last, fourth-to-last and first character, in lower case: two
/// names equal ignoring ASCII case share it.
spec fn alias_key(s: Seq<char>) -> (int, char, char, char) {
    (s.len() as int, ascii_lower(s[s.len() - 1]), ascii_lower(s[s.len() - 4]), ascii_lower(s[0]))
}

proof fn lemma_equal_aliases_share_key(a: Seq<char>, b: Seq<char>)
    requires
        a.len() >= 4,
        eq_ignore_ascii_case(a, b),
    ensures
        alias_key(a) == alias_key(b),
{
    assert(ascii_lower(a[a.len() - 1]) == ascii_lower(b[a.len() - 1]));
    assert(ascii_lower(a[a.len() - 4]) == ascii_lower(b[a.len() - 4]));
    assert(ascii_lower(a[0]) == ascii_lower(b[0]));
}

proof fn lemma_alias_keys()
    ensures
        forall|j: int| 0 <= j < strategy_aliases().len() ==> (#[trigger] strategy_aliases()[j]).0.len() >= 4,
        forall|i: int, j: int|
            0 <= i < strategy_aliases().len() && 0 <= j < strategy_aliases().len() && alias_key(
                #[trigger] strategy_aliases()[i].0,
            ) == alias_key(#[trigger] strategy_aliases()[j].0) ==> strategy_aliases()[i].1
                == strategy_aliases()[j].1,
{
    reveal_strlit("best1bin");
    reveal_strlit("best1");
    reveal_strlit("best1exp");
    reveal_strlit("rand1bin");
    reveal_strlit("rand1");
    reveal_strlit("rand1exp");
    reveal_strlit("rand2bin");
    reveal_strlit("rand2");
    reveal_strlit("rand2exp");
    reveal_strlit("currenttobest1bin");
    reveal_strlit("current-to-best1bin");
    reveal_strlit("current_to_best1bin");
    reveal_strlit("currenttobest1exp");
    reveal_strlit("current-to-best1exp");
    reveal_strlit("current_to_best1exp");
    reveal_strlit("best2bin");
    reveal_strlit("best2");
    reveal_strlit("best2exp");
    reveal_strlit("randtobest1bin");
    reveal_strlit("rand-to-best1bin");
    reveal_strlit("rand_to_best1bin");
    reveal_strlit("randtobest1exp");
    reveal_strlit("rand-to-best1exp");
    reveal_strlit("rand_to_best1exp");
    assert(alias_key(strategy_aliases()[0].0) == (8int, 'n', '1', 'b'));
    assert(alias_key(strategy_aliases()[1].0) == (5int, '1', 'e', 'b'));
    assert(alias_key(strategy_aliases()[2].0) == (8int, 'p', '1', 'b'));
    assert(alias_key(strategy_aliases()[3].0) == (8int, 'n', '1', 'r'));
    assert(alias_key(strategy_aliases()[4].0) == (5int, '1', 'a', 'r'));
    assert(alias_key(strategy_aliases()[5].0) == (8int, 'p', '1', 'r'));
    assert(alias_key(strategy_aliases()[6].0) == (8int, 'n', '2', 'r'));
    assert(alias_key(strategy_aliases()[7].0) == (5int, '2', 'a', 'r'));
    assert(alias_key(strategy_aliases()[8].0) == (8int, 'p', '2', 'r'));
    assert(alias_key(strategy_aliases()[9].0) == (17int, 'n', '1', 'c'));
    assert(alias_key(strategy_aliases()[10].0) == (19int, 'n', '1', 'c'));
    assert(alias_key(strategy_aliases()[11].0) == (19int, 'n', '1', 'c'));
    assert(alias_key(strategy_aliases()[12].0) == (17int, 'p', '1', 'c'));
    assert(alias_key(strategy_aliases()[13].0) == (19int, 'p', '1', 'c'));
    assert(alias_key(strategy_aliases()[14].0) == (19int, 'p', '1', 'c'));
    assert(alias_key(strategy_aliases()[15].0) == (8int, 'n', '2', 'b'));
    assert(alias_key(strategy_aliases()[16].0) == (5int, '2', 'e', 'b'));
    assert(alias_key(strategy_aliases()[17].0) == (8int, 'p', '2', 'b'));
    assert(alias_key(strategy_aliases()[18].0) == (14int, 'n', '1', 'r'));
    assert(alias_key(strategy_aliases()[19].0) == (16int, 'n', '1', 'r'));
    assert(alias_key(strategy_aliases()[20].0) == (16int, 'n', '1', 'r'));
    assert(alias_key(strategy_aliases()[21].0) == (14int, 'p', '1', 'r'));
    assert(alias_key(strategy_aliases()[22].0) == (16int, 'p', '1', 'r'));
    assert(alias_key(strategy_aliases()[23].0) == (16int, 'p', '1', 'r'));
}

/// Every known name of a strategy, in any ASCII case, reads as that
/// strategy: no name of one strategy is a name of another.
pub proof fn lemma_every_alias_parses(i: int, t: Seq<char>)
    requires
        0 <= i < strategy_aliases().len(),
        eq_ignore_ascii_case(t, strategy_aliases()[i].0),
    ensures
        strategy_named(t) == Some(strategy_aliases()[i].1),
{
    lemma_alias_keys();
    let a = strategy_aliases()[i].0;
    lemma_equal_aliases_share_key(a, t);
    assert forall|j: int| 0 <= j < strategy_aliases().len() && eq_ignore_ascii_case(t, #[trigger] strategy_aliases()[j].0) implies strategy_aliases()[j].1 == strategy_aliases()[i].1 by {
        lemma_equal_aliases_share_key(strategy_aliases()[j].0, t);
    }
}

impl Strategy {
    /// Reads a strategy name, in any ASCII case.
    pub fn parse(s: &str) -> (r: Result<Strategy, String>)
        ensures
            match strategy_named(s@) {
                Some(st) => r == Ok::<Strategy, String>(st),
                None => r matches Err(m) && m@ == unknown_strategy_message(s@),
            },
    {
        if str_eq_ignore_ascii_case(s, "best1bin") || str_eq_ignore_ascii_case(s, "best1") {
            Ok(Strategy::Best1Bin)
            } else if str_eq_ignore_ascii_case(s, "best1exp") {
            Ok(Strategy::Best1Exp)
            } else if str_eq_ignore_ascii_case(s, "rand1bin") || str_eq_ignore_ascii_case(s, "rand1") {
            Ok(Strategy::Rand1Bin)
            } else if str_eq_ignore_ascii_case(s, "rand1exp") {
            Ok(Strategy::Rand1Exp)
            } else if str_eq_ignore_ascii_case(s, "rand2bin") || str_eq_ignore_ascii_case(s, "rand2") {
            Ok(Strategy::Rand2Bin)
            } else if str_eq_ignore_ascii_case(s, "rand2exp") {
            Ok(Strategy::Rand2Exp)
            } else if str_eq_ignore_ascii_case(s, "currenttobest1bin") || str_eq_ignore_ascii_case(s, "current-to-best1bin") || str_eq_ignore_ascii_case(s, "current_to_best1bin") {
            Ok(Strategy::CurrentToBest1Bin)
            } else if str_eq_ignore_ascii_case(s, "currenttobest1exp") || str_eq_ignore_ascii_case(s, "current-to-best1exp") || str_eq_ignore_ascii_case(s, "current_to_best1exp") {
            Ok(Strategy::CurrentToBest1Exp)
            } else if str_eq_ignore_ascii_case(s, "best2bin") || str_eq_ignore_ascii_case(s, "best2") {
            Ok(Strategy::Best2Bin)
            } else if str_eq_ignore_ascii_case(s, "best2exp") {
            Ok(Strategy::Best2Exp)
            } else if str_eq_ignore_ascii_case(s, "randtobest1bin") || str_eq_ignore_ascii_case(s, "rand-to-best1bin") || str_eq_ignore_ascii_case(s, "rand_to_best1bin") {
            Ok(Strategy::RandToBest1Bin)
            } else if str_eq_ignore_ascii_case(s, "randtobest1exp") || str_eq_ignore_ascii_case(s, "rand-to-best1exp") || str_eq_ignore_ascii_case(s, "rand_to_best1exp") {
            Ok(Strategy::RandToBest1Exp)
        } else {
            let mut m = String::new();
            m.append("unknown strategy: ");
            m.append(s);
            Err(m)
        }
    }
}

impl std::str::FromStr for Strategy {
    type Err = String;

    fn from_str(s: &str) -> (r: Result<Strategy, String>)
        ensures
            match strategy_named(s@) {
                Some(st) => r == Ok::<Strategy, String>(st),
                None => r matches Err(m) && m@ == unknown_strategy_message(s@),
            },
    {
        Strategy::parse(s)
    }
}

/// How a trial vector takes coordinates from its mutant.
#[derive(PartialEq, Eq, Structural, Clone, Copy, Debug)]
pub enum Crossover {
    /// Binomial (uniform) crossover.
    Binomial,
    /// Exponential crossover.
    Exponential,
}

impl Default for Crossover {
    fn default() -> (c: Crossover)
        ensures
            c == Crossover::Binomial,
    {
        Crossover::Binomial
    }
}

/// How the first population is drawn.
#[derive(PartialEq, Eq, Structural, Clone, Copy, Debug)]
pub enum Init {
    /// Latin hypercube sampling.
    LatinHypercube,
    /// Uniform random sampling.
    Random,
}

impl Default for Init {
    fn default() -> (i: Init)
        ensures
            i == Init::LatinHypercube,
    {
        Init::LatinHypercube
    }
}

/// When the population is replaced by the trial vectors.
#[derive(PartialEq, Eq, Structural, Clone, Copy, Debug)]
pub enum Updating {
    /// Once per generation.
    Deferred,
}

impl Default for Updating {
    fn default() -> (u: Updating)
        ensures
            u == Updating::Deferred,
    {
        Updating::Deferred
    }
}

} // verus!
