//! Planning of a benchmark run over the cached speakers: which speakers,
//! how many parallel jobs, and which optimisation scenarios.
use vstd::prelude::*;
use crate::settings::LossType;

verus! {

/// Options of a benchmark run besides the optimisation options.
#[derive(PartialEq, Eq, Structural, Clone, Copy, Debug)]
pub struct BenchArgs {
    /// Run the first five speakers only.
    pub smoke_test: bool,
    /// Parallel jobs; zero uses every logical core.
    pub jobs: usize,
}

/// Lexicographic order on character sequences (the order of `String`).
pub open spec fn lex_le(a: Seq<char>, b: Seq<char>) -> bool
    decreases a.len(),
{
    if a.len() == 0 {
        true
    } else if b.len() == 0 {
        false
    } else if a[0] != b[0] {
        a[0] < b[0]
    } else {
        lex_le(a.drop_first(), b.drop_first())
    }
}

/// Whether names are in lexicographic order.
pub open spec fn names_sorted(s: Seq<String>) -> bool {
    forall|i: int, j: int| 0 <= i < j < s.len() ==> lex_le(#[trigger] s[i]@, #[trigger] s[j]@)
}

proof fn lemma_lex_total(a: Seq<char>, b: Seq<char>)
    ensures
        lex_le(a, b) || lex_le(b, a),
    decreases a.len(),
{
    if a.len() > 0 && b.len() > 0 && a[0] == b[0] {
        lemma_lex_total(a.drop_first(), b.drop_first());
    }
}

proof fn lemma_lex_trans(a: Seq<char>, b: Seq<char>, c: Seq<char>)
    requires
        lex_le(a, b),
        lex_le(b, c),
    ensures
        lex_le(a, c),
    decreases a.len(),
{
    if a.len() > 0 && b.len() > 0 && c.len() > 0 && a[0] == b[0] && b[0] == c[0] {
        lemma_lex_trans(a.drop_first(), b.drop_first(), c.drop_first());
    }
}

fn lex_le_exec(a: &str, b: &str) -> (r: bool)
    ensures
        r == lex_le(a@, b@),
{
    let va = crate::text::chars_of(a);
    let vb = crate::text::chars_of(b);
    let mut i: usize = 0;
    assert(a@.skip(0) =~= a@ && b@.skip(0) =~= b@);
    while i < va.len() && i < vb.len()
        invariant
            va@ == a@,
            vb@ == b@,
            0 <= i <= va.len(),
            i <= vb.len(),
            va@.take(i as int) == vb@.take(i as int),
            lex_le(a@, b@) == lex_le(a@.skip(i as int), b@.skip(i as int)),
        decreases va.len() - i,
    {
        if va[i] != vb[i] {
            proof {
                assert(a@.skip(i as int)[0] == va@[i as int]);
                assert(b@.skip(i as int)[0] == vb@[i as int]);
            }
            return va[i] < vb[i];
        }
        proof {
            assert(a@.skip(i as int).drop_first() =~= a@.skip(i + 1));
            assert(b@.skip(i as int).drop_first() =~= b@.skip(i + 1));
            assert(va@.take(i + 1) =~= va@.take(i as int).push(va@[i as int]));
            assert(vb@.take(i + 1) =~= vb@.take(i as int).push(vb@[i as int]));
        }
        i = i + 1;
    }
    i == va.len()
}

/// Sorts speaker names in lexicographic order (insertion sort).
pub fn sort_names(names: Vec<String>) -> (r: Vec<String>)
    ensures
        names_sorted(r@),
        r@.to_multiset() == names@.to_multiset(),
{
    let mut out: Vec<String> = Vec::new();
    let mut names = names;
    let ghost orig = names@;
    proof {
        broadcast use vstd::multiset::group_multiset_axioms;

        vstd::seq_lib::to_multiset_len(out@);
        vstd::multiset::lemma_multiset_empty_len(out@.to_multiset());
        assert(out@.to_multiset().add(orig.to_multiset()) =~= orig.to_multiset());
    }
    while names.len() > 0
        invariant
            names_sorted(out@),
            out@.to_multiset().add(names@.to_multiset()) == orig.to_multiset(),
        decreases names.len(),
    {
        let ghost before = names@;
        let x = names.pop().unwrap();
        proof {
            assert(before =~= names@.push(x));
            vstd::seq_lib::to_multiset_build(names@, x);
        }
        let mut p: usize = out.len();
        while p > 0 && !lex_le_exec(out[p - 1].as_str(), x.as_str())
            invariant
                0 <= p <= out.len(),
                names_sorted(out@),
                forall|k: int| p <= k < out@.len() ==> !lex_le(#[trigger] out@[k]@, x@),
            decreases p,
        {
            p = p - 1;
        }
        let ghost old_out = out@;
        out.insert(p, x);
        proof {
            assert(out@ =~= old_out.insert(p as int, x));
            assert forall|k: int| p < k < out@.len() implies lex_le(x@, #[trigger] out@[k]@) by {
                lemma_lex_total(x@, out@[k]@);
            }
            if p > 0 {
                assert(lex_le(old_out[p - 1]@, x@));
            }
            assert forall|i: int, j: int| 0 <= i < j < out@.len() implies lex_le(
                #[trigger] out@[i]@,
                #[trigger] out@[j]@,
            ) by {
                if i < p && j == p {
                    if i < p - 1 {
                        lemma_lex_trans(old_out[i]@, old_out[p - 1]@, x@);
                    }
                } else if i == p && j > p {
                } else if i < p && j > p {
                    assert(out@[j] == old_out[j - 1]);
                    assert(lex_le(x@, out@[j]@));
                    if i < p - 1 {
                        lemma_lex_trans(old_out[i]@, old_out[p - 1]@, x@);
                    }
                    lemma_lex_trans(out@[i]@, x@, out@[j]@);
                } else if i > p {
                    assert(out@[i] == old_out[i - 1] && out@[j] == old_out[j - 1]);
                } else {
                    assert(out@[i] == old_out[i] && out@[j] == old_out[j]);
                }
            }
            vstd::seq_lib::to_multiset_insert(old_out, p as int, x);
            broadcast use vstd::multiset::group_multiset_axioms;

            assert(out@.to_multiset().add(names@.to_multiset()) =~= orig.to_multiset());
        }
    }
    proof {
        broadcast use vstd::multiset::group_multiset_axioms;

        vstd::seq_lib::to_multiset_len(names@);
        vstd::multiset::lemma_multiset_empty_len(names@.to_multiset());
        assert(out@.to_multiset() =~= out@.to_multiset().add(names@.to_multiset()));
    }
    out
}

/// The speakers a run covers: the first five with `smoke_test`, else all.
pub fn speakers_for_run(speakers: Vec<String>, smoke_test: bool) -> (r: Vec<String>)
    ensures
        r@ == (if smoke_test && speakers@.len() > 5 {
            speakers@.take(5)
        } else {
            speakers@
        }),
{
    if smoke_test && speakers.len() > 5 {
        let mut r: Vec<String> = Vec::new();
        let mut i: usize = 0;
        while i < 5
            invariant
                0 <= i <= 5,
                speakers@.len() > 5,
                r@ == speakers@.take(i as int),
            decreases 5 - i,
        {
            r.push(speakers[i].clone());
            proof {
                assert(r@ =~= speakers@.take(i + 1));
            }
            i = i + 1;
        }
        r
    } else {
        speakers
    }
}

/// Number of parallel jobs: the requested number, or the number of
/// logical cores when zero was requested.
pub fn job_count(jobs: usize, cores: usize) -> (n: usize)
    ensures
        n == (if jobs > 0 { jobs } else { cores }),
{
    if jobs > 0 {
        jobs
    } else {
        cores
    }
}

/// The number of logical cores available to this process
/// (`num_cpus::get`). It depends on the machine; the crate documents it
/// as at least one.
#[verifier::external_body]
fn logical_cores() -> (n: usize)
    ensures
        n >= 1,
{
    num_cpus::get()
}

/// Number of parallel jobs of a run: the requested number, or one per
/// logical core when zero was requested; never zero.
pub fn benchmark_jobs(jobs: usize) -> (n: usize)
    ensures
        jobs > 0 ==> n == jobs,
        n >= 1,
{
    if jobs > 0 {
        job_count(jobs, 1)
    } else {
        let cores = logical_cores();
        job_count(jobs, cores)
    }
}

/// One optimisation scenario run for every speaker.
pub struct Scenario {
    /// Column name in the results table.
    pub column: &'static str,
    /// Measurement to optimise.
    pub measurement: &'static str,
    /// Curve of the measurement, when the scenario sets one.
    pub curve_name: Option<&'static str>,
    /// Loss minimised.
    pub loss: LossType,
}

/// The scenarios, in order: flat loss on the listening window of the
/// CEA2034 set, flat loss on the estimated in-room response, and the
/// score loss on CEA2034 (keeping the curve the options name).
pub open spec fn scenario_matches(s: Scenario, i: int) -> bool {
    if i == 0 {
        s.column@ == "flat_cea2034_lw"@ && s.measurement@ == "CEA2034"@ && (s.curve_name matches Some(
            c,
        ) && c@ == "Listening Window"@) && s.loss == LossType::Flat
    } else if i == 1 {
        s.column@ == "flat_eir"@ && s.measurement@ == "Estimated In-Room Response"@ && (
        s.curve_name matches Some(c) && c@ == "Estimated In-Room Response"@) && s.loss
            == LossType::Flat
    } else {
        s.column@ == "score_cea2034"@ && s.measurement@ == "CEA2034"@ && s.curve_name is None
            && s.loss == LossType::Score
    }
}

/// See [`scenario_matches`].
pub fn benchmark_scenarios() -> (v: Vec<Scenario>)
    ensures
        v@.len() == 3,
        forall|i: int| 0 <= i < 3 ==> scenario_matches(#[trigger] v@[i], i),
{
    let mut v: Vec<Scenario> = Vec::new();
    v.push(
        Scenario {
            column: "flat_cea2034_lw",
            measurement: "CEA2034",
            curve_name: Some("Listening Window"),
            loss: LossType::Flat,
        },
    );
    v.push(
        Scenario {
            column: "flat_eir",
            measurement: "Estimated In-Room Response",
            curve_name: Some("Estimated In-Room Response"),
            loss: LossType::Flat,
        },
    );
    v.push(
        Scenario {
            column: "score_cea2034",
            measurement: "CEA2034",
            curve_name: None,
            loss: LossType::Score,
        },
    );
    v
}

} // verus!
