//! The catalogue of optimisation algorithms and the lookup of an algorithm
//! by name.
use vstd::prelude::*;
use crate::text::{
    ascii_lower, chars_of, eq_ignore_ascii_case, eq_ignore_ascii_case_chars, has_prefix, str_eq,
    str_eq_ignore_ascii_case, str_starts_with, string_from_range,
};

verus! {

/// Whether an optimiser searches the whole space or refines a start point.
#[derive(PartialEq, Eq, Structural, Clone, Copy, Debug)]
pub enum AlgorithmType {
    /// Explores the entire search space.
    Global,
    /// Refines a solution from its starting point.
    Local,
}

/// What is known of one optimisation algorithm.
#[derive(Clone, Copy, Debug)]
pub struct AlgorithmInfo {
    /// Name with its library prefix, such as `nlopt:isres`.
    pub name: &'static str,
    /// The library that provides it.
    pub library: &'static str,
    /// Global or local.
    pub algorithm_type: AlgorithmType,
    /// Whether it handles linear constraints natively.
    pub supports_linear_constraints: bool,
    /// Whether it handles nonlinear constraints natively.
    pub supports_nonlinear_constraints: bool,
}

impl View for AlgorithmInfo {
    type V = (Seq<char>, Seq<char>, AlgorithmType, bool, bool);

    open spec fn view(&self) -> Self::V {
        (
            self.name@,
            self.library@,
            self.algorithm_type,
            self.supports_linear_constraints,
            self.supports_nonlinear_constraints,
        )
    }
}

/// The catalogue, in order: name, library, type, linear constraints,
/// nonlinear constraints.
pub open spec fn algorithm_table() -> Seq<(Seq<char>, Seq<char>, AlgorithmType, bool, bool)> {
    seq![
        ("nlopt:isres"@, "NLOPT"@, AlgorithmType::Global, true, true),
        ("nlopt:ags"@, "NLOPT"@, AlgorithmType::Global, false, true),
        ("nlopt:origdirect"@, "NLOPT"@, AlgorithmType::Global, false, true),
        ("nlopt:crs2lm"@, "NLOPT"@, AlgorithmType::Global, false, false),
        ("nlopt:direct"@, "NLOPT"@, AlgorithmType::Global, false, false),
        ("nlopt:directl"@, "NLOPT"@, AlgorithmType::Global, false, false),
        ("nlopt:gmlsl"@, "NLOPT"@, AlgorithmType::Global, false, false),
        ("nlopt:gmlsllds"@, "NLOPT"@, AlgorithmType::Global, false, false),
        ("nlopt:sbplx"@, "NLOPT"@, AlgorithmType::Local, false, false),
        ("nlopt:slsqp"@, "NLOPT"@, AlgorithmType::Local, true, true),
        ("nlopt:stogo"@, "NLOPT"@, AlgorithmType::Global, false, false),
        ("nlopt:stogorand"@, "NLOPT"@, AlgorithmType::Global, false, false),
        ("nlopt:bobyqa"@, "NLOPT"@, AlgorithmType::Local, false, false),
        ("nlopt:cobyla"@, "NLOPT"@, AlgorithmType::Local, true, true),
        ("nlopt:neldermead"@, "NLOPT"@, AlgorithmType::Local, false, false),
        ("mh:de"@, "Metaheuristics"@, AlgorithmType::Global, false, false),
        ("mh:pso"@, "Metaheuristics"@, AlgorithmType::Global, false, false),
        ("mh:rga"@, "Metaheuristics"@, AlgorithmType::Global, false, false),
        ("mh:tlbo"@, "Metaheuristics"@, AlgorithmType::Global, false, false),
        ("mh:firefly"@, "Metaheuristics"@, AlgorithmType::Global, false, false),
        ("autoeq:de"@, "AutoEQ"@, AlgorithmType::Global, true, true),
    ]
}

fn entry(
    name: &'static str,
    library: &'static str,
    algorithm_type: AlgorithmType,
    linear: bool,
    nonlinear: bool,
) -> (a: AlgorithmInfo)
    ensures
        a@ == (name@, library@, algorithm_type, linear, nonlinear),
{
    AlgorithmInfo {
        name,
        library,
        algorithm_type,
        supports_linear_constraints: linear,
        supports_nonlinear_constraints: nonlinear,
    }
}

/// Every available algorithm with its metadata, in catalogue order.
pub fn get_all_algorithms() -> (v: Vec<AlgorithmInfo>)
    ensures
        v@.len() == algorithm_table().len(),
        forall|i: int| 0 <= i < v@.len() ==> #[trigger] v@[i]@ == algorithm_table()[i],
{
    let g = AlgorithmType::Global;
    let l = AlgorithmType::Local;
    let mut v: Vec<AlgorithmInfo> = Vec::new();
    v.push(entry("nlopt:isres", "NLOPT", g, true, true));
    v.push(entry("nlopt:ags", "NLOPT", g, false, true));
    v.push(entry("nlopt:origdirect", "NLOPT", g, false, true));
    v.push(entry("nlopt:crs2lm", "NLOPT", g, false, false));
    v.push(entry("nlopt:direct", "NLOPT", g, false, false));
    v.push(entry("nlopt:directl", "NLOPT", g, false, false));
    v.push(entry("nlopt:gmlsl", "NLOPT", g, false, false));
    v.push(entry("nlopt:gmlsllds", "NLOPT", g, false, false));
    v.push(entry("nlopt:sbplx", "NLOPT", l, false, false));
    v.push(entry("nlopt:slsqp", "NLOPT", l, true, true));
    v.push(entry("nlopt:stogo", "NLOPT", g, false, false));
    v.push(entry("nlopt:stogorand", "NLOPT", g, false, false));
    v.push(entry("nlopt:bobyqa", "NLOPT", l, false, false));
    v.push(entry("nlopt:cobyla", "NLOPT", l, true, true));
    v.push(entry("nlopt:neldermead", "NLOPT", l, false, false));
    v.push(entry("mh:de", "Metaheuristics", g, false, false));
    v.push(entry("mh:pso", "Metaheuristics", g, false, false));
    v.push(entry("mh:rga", "Metaheuristics", g, false, false));
    v.push(entry("mh:tlbo", "Metaheuristics", g, false, false));
    v.push(entry("mh:firefly", "Metaheuristics", g, false, false));
    v.push(entry("autoeq:de", "AutoEQ", g, true, true));
    v
}

/// The first position at or after `i` that holds a `:`, or the length of
/// `s` when there is none.
pub open spec fn colon_from(s: Seq<char>, i: int) -> int
    decreases s.len() - i,
{
    if i < 0 || i >= s.len() {
        s.len() as int
    } else if s[i] == ':' {
        i
    } else {
        colon_from(s, i + 1)
    }
}

/// The second `:`-separated field of `s` (`s.split(':').nth(1)`), if `s`
/// holds a `:` at all.
pub open spec fn second_segment(s: Seq<char>) -> Option<Seq<char>> {
    let k = colon_from(s, 0);
    if k >= s.len() {
        None
    } else {
        Some(s.subrange(k + 1, colon_from(s, k + 1)))
    }
}

proof fn lemma_colon_from_bounds(s: Seq<char>, i: int)
    requires
        0 <= i <= s.len(),
    ensures
        i <= colon_from(s, i) <= s.len(),
        colon_from(s, i) < s.len() ==> s[colon_from(s, i)] == ':',
    decreases s.len() - i,
{
    if i < s.len() && s[i] != ':' {
        lemma_colon_from_bounds(s, i + 1);
    }
}

/// Whether the catalogue name `entry` answers the query `name`: equal to
/// it ignoring ASCII case, or, when `by_suffix`, with its part after the
/// library prefix equal to it ignoring ASCII case.
pub open spec fn answers(entry: Seq<char>, name: Seq<char>, by_suffix: bool) -> bool {
    if by_suffix {
        second_segment(entry) matches Some(sfx) && eq_ignore_ascii_case(sfx, name)
    } else {
        eq_ignore_ascii_case(entry, name)
    }
}

/// The first catalogue position at or after `i` whose entry answers `name`.
pub open spec fn first_answer(name: Seq<char>, by_suffix: bool, i: int) -> Option<int>
    decreases algorithm_table().len() - i,
{
    if i < 0 || i >= algorithm_table().len() {
        None
    } else if answers(algorithm_table()[i].0, name, by_suffix) {
        Some(i)
    } else {
        first_answer(name, by_suffix, i + 1)
    }
}

/// The catalogue position that a name designates: the first entry whose
/// full name matches, else the first whose unprefixed name matches.
pub open spec fn designated(name: Seq<char>) -> Option<int> {
    match first_answer(name, false, 0) {
        Some(i) => Some(i),
        None => first_answer(name, true, 0),
    }
}

proof fn lemma_first_answer_range(name: Seq<char>, by_suffix: bool, i: int)
    requires
        0 <= i,
    ensures
        first_answer(name, by_suffix, i) matches Some(j) ==> i <= j < algorithm_table().len()
            && answers(algorithm_table()[j].0, name, by_suffix),
    decreases algorithm_table().len() - i,
{
    if i < algorithm_table().len() && !answers(algorithm_table()[i].0, name, by_suffix) {
        lemma_first_answer_range(name, by_suffix, i + 1);
    }
}

fn colon_index(v: &Vec<char>, from: usize) -> (k: usize)
    requires
        from <= v.len(),
    ensures
        k == colon_from(v@, from as int),
{
    let mut j = from;
    while j < v.len()
        invariant
            from <= j <= v.len(),
            colon_from(v@, from as int) == colon_from(v@, j as int),
        decreases v.len() - j,
    {
        if v[j] == ':' {
            return j;
        }
        j = j + 1;
    }
    j
}

/// The second `:`-separated field of a name, as characters.
fn second_segment_of(name: &str) -> (r: Option<Vec<char>>)
    ensures
        match second_segment(name@) {
            Some(sfx) => r matches Some(v) && v@ == sfx,
            None => r is None,
        },
{
    let v = chars_of(name);
    let k = colon_index(&v, 0);
    proof {
        lemma_colon_from_bounds(v@, 0);
    }
    if k >= v.len() {
        None
    } else {
        proof {
            lemma_colon_from_bounds(v@, k + 1);
        }
        let m = colon_index(&v, k + 1);
        let s = string_from_range(&v, k + 1, m);
        Some(chars_of(s.as_str()))
    }
}

/// Finds an algorithm by name, ignoring ASCII case. The full prefixed name
/// is tried first; failing that, a name without its library prefix (such
/// as `isres` or `de`) designates the first entry it ends.
pub fn find_algorithm_info(name: &str) -> (r: Option<AlgorithmInfo>)
    ensures
        match designated(name@) {
            Some(i) => r matches Some(a) && a@ == algorithm_table()[i],
            None => r is None,
        },
{
    let algorithms = get_all_algorithms();
    let mut i: usize = 0;
    while i < algorithms.len()
        invariant
            0 <= i <= algorithms.len(),
            algorithms@.len() == algorithm_table().len(),
            forall|k: int| 0 <= k < algorithms@.len() ==> #[trigger] algorithms@[k]@ == algorithm_table()[k],
            first_answer(name@, false, 0) == first_answer(name@, false, i as int),
        decreases algorithms.len() - i,
    {
        assert(algorithms@[i as int]@ == algorithm_table()[i as int]);
        if str_eq_ignore_ascii_case(algorithms[i].name, name) {
            return Some(algorithms[i]);
        }
        i = i + 1;
    }
    let query = chars_of(name);
    let mut i: usize = 0;
    while i < algorithms.len()
        invariant
            0 <= i <= algorithms.len(),
            query@ == name@,
            first_answer(name@, false, 0) is None,
            algorithms@.len() == algorithm_table().len(),
            forall|k: int| 0 <= k < algorithms@.len() ==> #[trigger] algorithms@[k]@ == algorithm_table()[k],
            first_answer(name@, true, 0) == first_answer(name@, true, i as int),
        decreases algorithms.len() - i,
    {
        assert(algorithms@[i as int]@ == algorithm_table()[i as int]);
        match second_segment_of(algorithms[i].name) {
            Some(sfx) => {
                if eq_ignore_ascii_case_chars(&sfx, &query) {
                    return Some(algorithms[i]);
                }
            },
            None => {},
        }
        i = i + 1;
    }
    None
}

/// Length and last two characters, in lower case: two names equal
/// ignoring ASCII case share it.
spec fn name_key(s: Seq<char>) -> (int, char, char) {
    (s.len() as int, ascii_lower(s[s.len() - 1]), ascii_lower(s[s.len() - 2]))
}

proof fn lemma_equal_names_share_key(a: Seq<char>, b: Seq<char>)
    requires
        a.len() >= 2,
        eq_ignore_ascii_case(a, b) || eq_ignore_ascii_case(b, a),
    ensures
        name_key(a) == name_key(b),
{
    assert(ascii_lower(a[a.len() - 1]) == ascii_lower(b[a.len() - 1]));
    assert(ascii_lower(a[a.len() - 2]) == ascii_lower(b[a.len() - 2]));
}

/// The key of each catalogue name, in catalogue order.
spec fn catalogue_keys() -> Seq<(int, char, char)> {
    seq![
        (11int, 's', 'e'), (9int, 's', 'g'), (16int, 't', 'c'), (12int, 'm', 'l'),
        (12int, 't', 'c'), (13int, 'l', 't'), (11int, 'l', 's'), (14int, 's', 'd'),
        (11int, 'x', 'l'), (11int, 'p', 'q'), (11int, 'o', 'g'), (15int, 'd', 'n'),
        (12int, 'a', 'q'), (12int, 'a', 'l'), (16int, 'd', 'a'), (5int, 'e', 'd'),
        (6int, 'o', 's'), (6int, 'a', 'g'), (7int, 'o', 'b'), (10int, 'y', 'l'),
        (9int, 'e', 'd'),
    ]
}

proof fn lemma_table_keys_distinct()
    ensures
        forall|j: int| 0 <= j < algorithm_table().len() ==> (#[trigger] algorithm_table()[j]).0.len() >= 2,
        forall|j: int, i: int|
            0 <= j < algorithm_table().len() && 0 <= i < algorithm_table().len() && j != i
                ==> algorithm_table()[j].0.len() >= 2 && name_key(#[trigger] algorithm_table()[j].0)
                != name_key(#[trigger] algorithm_table()[i].0),
{
    assert forall|j: int| 0 <= j < algorithm_table().len() implies (#[trigger] algorithm_table()[j]).0.len()
        >= 2 && name_key(algorithm_table()[j].0) == catalogue_keys()[j] by {
        lemma_catalogue_spelling(j);
    }
}

/// Every catalogue name, in any ASCII case, designates its own entry: the
/// names differ from one another even ignoring ASCII case.
pub proof fn lemma_catalogue_name_designates_itself(i: int, t: Seq<char>)
    requires
        0 <= i < algorithm_table().len(),
        eq_ignore_ascii_case(t, algorithm_table()[i].0),
    ensures
        designated(t) == Some(i),
{
    let n = algorithm_table()[i].0;
    lemma_table_keys_distinct();
    lemma_equal_names_share_key(n, t);
    assert forall|j: int| 0 <= j < i implies !answers(#[trigger] algorithm_table()[j].0, t, false) by {
        if eq_ignore_ascii_case(algorithm_table()[j].0, t) {
            lemma_equal_names_share_key(algorithm_table()[j].0, t);
        }
    }
    assert(answers(n, t, false));
    lemma_first_answer_prefix(t, i);
}

proof fn lemma_first_answer_prefix(name: Seq<char>, i: int)
    requires
        0 <= i < algorithm_table().len(),
        answers(algorithm_table()[i].0, name, false),
        forall|j: int| 0 <= j < i ==> !answers(#[trigger] algorithm_table()[j].0, name, false),
    ensures
        first_answer(name, false, 0) == Some(i),
{
    lemma_first_answer_from(name, 0, i);
}

proof fn lemma_first_answer_from(name: Seq<char>, k: int, i: int)
    requires
        0 <= k <= i < algorithm_table().len(),
        answers(algorithm_table()[i].0, name, false),
        forall|j: int| 0 <= j < i ==> !answers(#[trigger] algorithm_table()[j].0, name, false),
    ensures
        first_answer(name, false, k) == Some(i),
    decreases i - k,
{
    if k < i {
        lemma_first_answer_from(name, k + 1, i);
    }
}

/// The library prefix of a catalogue name: the text before its `:`.
pub open spec fn library_prefix(n: Seq<char>) -> Seq<char> {
    n.take(colon_from(n, 0))
}

/// A catalogue name without its library prefix: the text after its `:`.
pub open spec fn unprefixed_name(n: Seq<char>) -> Seq<char> {
    n.skip(colon_from(n, 0) + 1)
}

proof fn lemma_no_colon_before(s: Seq<char>, i: int)
    requires
        0 <= i <= s.len(),
    ensures
        forall|j: int| i <= j < colon_from(s, i) ==> s[j] != ':',
    decreases s.len() - i,
{
    if i < s.len() && s[i] != ':' {
        lemma_no_colon_before(s, i + 1);
    }
}

/// What the spelling of each catalogue name gives: where its colon
/// stands, its library, and its key.
#[verifier::rlimit(60)]
proof fn lemma_catalogue_spelling(i: int)
    requires
        0 <= i < algorithm_table().len(),
    ensures
        ({
            let e = algorithm_table()[i];
            let n = e.0;
            let k = colon_from(n, 0);
            &&& 0 < k
            &&& k + 1 < n.len()
            &&& colon_from(n, k + 1) == n.len()
            &&& {
                ||| e.1 == "NLOPT"@ && n.take(k) == "nlopt"@
                ||| e.1 == "Metaheuristics"@ && n.take(k) == "mh"@
                ||| e.1 == "AutoEQ"@ && n.take(k) == "autoeq"@
            }
            &&& n.len() >= 2
            &&& name_key(n) == catalogue_keys()[i]
            &&& n.take(k) == "nlopt"@ ==> nlopt_algorithm_name(nlopt_named(n.skip(k + 1)))
                == n.skip(k + 1)
        }),
{
    reveal_strlit("bobyqa");
    reveal_strlit("cobyla");
    reveal_strlit("neldermead");
    reveal_strlit("isres");
    reveal_strlit("ags");
    reveal_strlit("origdirect");
    reveal_strlit("crs2lm");
    reveal_strlit("direct");
    reveal_strlit("directl");
    reveal_strlit("gmlsl");
    reveal_strlit("gmlsllds");
    reveal_strlit("sbplx");
    reveal_strlit("slsqp");
    reveal_strlit("stogo");
    reveal_strlit("stogorand");
    reveal_strlit("nlopt:isres");
    reveal_strlit("nlopt:ags");
    reveal_strlit("nlopt:origdirect");
    reveal_strlit("nlopt:crs2lm");
    reveal_strlit("nlopt:direct");
    reveal_strlit("nlopt:directl");
    reveal_strlit("nlopt:gmlsl");
    reveal_strlit("nlopt:gmlsllds");
    reveal_strlit("nlopt:sbplx");
    reveal_strlit("nlopt:slsqp");
    reveal_strlit("nlopt:stogo");
    reveal_strlit("nlopt:stogorand");
    reveal_strlit("nlopt:bobyqa");
    reveal_strlit("nlopt:cobyla");
    reveal_strlit("nlopt:neldermead");
    reveal_strlit("mh:de");
    reveal_strlit("mh:pso");
    reveal_strlit("mh:rga");
    reveal_strlit("mh:tlbo");
    reveal_strlit("mh:firefly");
    reveal_strlit("autoeq:de");
    reveal_strlit("nlopt");
    reveal_strlit("mh");
    reveal_strlit("autoeq");
    reveal_with_fuel(colon_from, 18);
    let n = algorithm_table()[i].0;
    if i <= 14 {
        assert(colon_from(n, 0) == 5);
        assert(n.take(5) =~= "nlopt"@);
        if i == 0 {
            assert(n.skip(6) =~= "isres"@);
        } else if i == 1 {
            assert(n.skip(6) =~= "ags"@);
        } else if i == 2 {
            assert(n.skip(6) =~= "origdirect"@);
        } else if i == 3 {
            assert(n.skip(6) =~= "crs2lm"@);
        } else if i == 4 {
            assert(n.skip(6) =~= "direct"@);
        } else if i == 5 {
            assert(n.skip(6) =~= "directl"@);
        } else if i == 6 {
            assert(n.skip(6) =~= "gmlsl"@);
        } else if i == 7 {
            assert(n.skip(6) =~= "gmlsllds"@);
        } else if i == 8 {
            assert(n.skip(6) =~= "sbplx"@);
        } else if i == 9 {
            assert(n.skip(6) =~= "slsqp"@);
        } else if i == 10 {
            assert(n.skip(6) =~= "stogo"@);
        } else if i == 11 {
            assert(n.skip(6) =~= "stogorand"@);
        } else if i == 12 {
            assert(n.skip(6) =~= "bobyqa"@);
        } else if i == 13 {
            assert(n.skip(6) =~= "cobyla"@);
        } else {
            assert(n.skip(6) =~= "neldermead"@);
        }
    } else if i <= 19 {
        assert(colon_from(n, 0) == 2);
        assert(n.take(2) =~= "mh"@);
    } else {
        assert(colon_from(n, 0) == 6);
        assert(n.take(6) =~= "autoeq"@);
    }
}

/// What every catalogue entry obeys: its name holds exactly one `:`, with
/// a library prefix before it and a non-empty name after it; the library
/// is `NLOPT` exactly for the prefix `nlopt`, `Metaheuristics` exactly for
/// `mh` and `AutoEQ` exactly for `autoeq`; native linear constraints come
/// with native nonlinear ones; and every metaheuristic is global, without
/// native constraints.
pub proof fn lemma_catalogue_entry_laws(i: int)
    requires
        0 <= i < algorithm_table().len(),
    ensures
        ({
            let e = algorithm_table()[i];
            let n = e.0;
            let p = library_prefix(n);
            &&& colon_from(n, 0) < n.len()
            &&& forall|j: int| 0 <= j < n.len() && n[j] == ':' ==> j == colon_from(n, 0)
            &&& p.len() > 0
            &&& unprefixed_name(n).len() > 0
            &&& n == p + ":"@ + unprefixed_name(n)
            &&& second_segment(n) == Some(unprefixed_name(n))
            &&& (e.1 == "NLOPT"@ <==> p == "nlopt"@)
            &&& (e.1 == "Metaheuristics"@ <==> p == "mh"@)
            &&& (e.1 == "AutoEQ"@ <==> p == "autoeq"@)
            &&& e.3 ==> e.4
            &&& p == "mh"@ ==> e.2 == AlgorithmType::Global && !e.3 && !e.4
        }),
{
    reveal_strlit(":");
    reveal_strlit("NLOPT");
    reveal_strlit("Metaheuristics");
    reveal_strlit("AutoEQ");
    reveal_strlit("nlopt");
    reveal_strlit("mh");
    reveal_strlit("autoeq");
    lemma_catalogue_spelling(i);
    let n = algorithm_table()[i].0;
    let k = colon_from(n, 0);
    lemma_colon_from_bounds(n, 0);
    lemma_no_colon_before(n, 0);
    lemma_no_colon_before(n, k + 1);
    assert(n =~= library_prefix(n) + ":"@ + unprefixed_name(n));
    assert(n.subrange(k + 1, n.len() as int) =~= unprefixed_name(n));
    assert("NLOPT"@.len() == 5);
    assert("Metaheuristics"@.len() == 14);
    assert("AutoEQ"@.len() == 6);
    assert("nlopt"@.len() == 5);
    assert("mh"@.len() == 2);
    assert("autoeq"@.len() == 6);
}

/// No two catalogue names are equal, not even ignoring ASCII case.
pub proof fn lemma_catalogue_names_distinct(i: int, j: int)
    requires
        0 <= i < algorithm_table().len(),
        0 <= j < algorithm_table().len(),
        i != j,
    ensures
        !eq_ignore_ascii_case(algorithm_table()[i].0, algorithm_table()[j].0),
        algorithm_table()[i].0 != algorithm_table()[j].0,
{
    lemma_table_keys_distinct();
    assert(name_key(algorithm_table()[i].0) != name_key(algorithm_table()[j].0));
    if eq_ignore_ascii_case(algorithm_table()[i].0, algorithm_table()[j].0) {
        lemma_equal_names_share_key(algorithm_table()[i].0, algorithm_table()[j].0);
    }
}

/// Whatever a name designates is a position of the catalogue.
pub proof fn lemma_designated_in_catalogue(t: Seq<char>)
    ensures
        designated(t) matches Some(j) ==> 0 <= j < algorithm_table().len(),
{
    lemma_first_answer_range(t, false, 0);
    lemma_first_answer_range(t, true, 0);
}

proof fn lemma_first_answer_none(name: Seq<char>, by_suffix: bool, k: int)
    requires
        0 <= k,
        forall|m: int| k <= m < algorithm_table().len() ==> !answers(#[trigger] algorithm_table()[m].0, name, by_suffix),
    ensures
        first_answer(name, by_suffix, k) is None,
    decreases algorithm_table().len() - k,
{
    if k < algorithm_table().len() {
        lemma_first_answer_none(name, by_suffix, k + 1);
    }
}

proof fn lemma_first_answer_found(name: Seq<char>, by_suffix: bool, k: int, i: int)
    requires
        0 <= k <= i < algorithm_table().len(),
        answers(algorithm_table()[i].0, name, by_suffix),
    ensures
        first_answer(name, by_suffix, k) matches Some(j) && k <= j <= i && answers(
            algorithm_table()[j].0,
            name,
            by_suffix,
        ) && forall|m: int| k <= m < j ==> !answers(#[trigger] algorithm_table()[m].0, name, by_suffix),
    decreases i - k,
{
    if k < i && !answers(algorithm_table()[k].0, name, by_suffix) {
        lemma_first_answer_found(name, by_suffix, k + 1, i);
    }
}

/// A catalogue name without its library prefix, in any ASCII case,
/// designates the first catalogue entry whose unprefixed name equals it
/// ignoring ASCII case; that entry is the given one or an earlier one.
pub proof fn lemma_unprefixed_name_designates(i: int, t: Seq<char>)
    requires
        0 <= i < algorithm_table().len(),
        eq_ignore_ascii_case(t, unprefixed_name(algorithm_table()[i].0)),
    ensures
        designated(t) matches Some(j) && j <= i && eq_ignore_ascii_case(
            unprefixed_name(algorithm_table()[j].0),
            t,
        ) && forall|m: int|
            0 <= m < j ==> !eq_ignore_ascii_case(unprefixed_name(#[trigger] algorithm_table()[m].0), t),
{
    let n = algorithm_table()[i].0;
    let kk = colon_from(n, 0);
    let s = unprefixed_name(n);
    lemma_catalogue_entry_laws(i);
    lemma_colon_from_bounds(n, 0);
    assert(s =~= n.subrange(kk + 1, n.len() as int));
    assert(t.len() == s.len());
    assert forall|c: int| 0 <= c < t.len() implies t[c] != ':' by {
        assert(s[c] == n[kk + 1 + c]);
        assert(n[kk + 1 + c] != ':');
        assert(ascii_lower(t[c]) == ascii_lower(s[c]));
    }
    assert forall|m: int| 0 <= m < algorithm_table().len() implies !answers(
        #[trigger] algorithm_table()[m].0,
        t,
        false,
    ) by {
        lemma_catalogue_entry_laws(m);
        let n = algorithm_table()[m].0;
        let km = colon_from(n, 0);
        lemma_colon_from_bounds(n, 0);
        if eq_ignore_ascii_case(n, t) {
            assert(ascii_lower(n[km]) == ascii_lower(t[km]));
        }
    }
    lemma_first_answer_none(t, false, 0);
    assert(answers(algorithm_table()[i].0, t, true));
    lemma_first_answer_found(t, true, 0, i);
    let j = first_answer(t, true, 0)->0;
    lemma_catalogue_entry_laws(j);
    assert forall|m: int| 0 <= m < j implies !eq_ignore_ascii_case(
        unprefixed_name(#[trigger] algorithm_table()[m].0),
        t,
    ) by {
        lemma_catalogue_entry_laws(m);
        assert(!answers(algorithm_table()[m].0, t, true));
    }
}

/// The NLopt algorithms of the catalogue.
#[derive(PartialEq, Eq, Structural, Clone, Copy, Debug)]
pub enum NloptAlgorithm {
    Bobyqa,
    Cobyla,
    Neldermead,
    Isres,
    Ags,
    OrigDirect,
    Crs2Lm,
    Direct,
    DirectL,
    GMlsl,
    GMlslLds,
    Sbplx,
    Slsqp,
    StoGo,
    StoGoRand,
}

/// The name under which the catalogue lists an NLopt algorithm, without
/// its library prefix.
pub open spec fn nlopt_algorithm_name(a: NloptAlgorithm) -> Seq<char> {
    match a {
        NloptAlgorithm::Bobyqa => "bobyqa"@,
        NloptAlgorithm::Cobyla => "cobyla"@,
        NloptAlgorithm::Neldermead => "neldermead"@,
        NloptAlgorithm::Isres => "isres"@,
        NloptAlgorithm::Ags => "ags"@,
        NloptAlgorithm::OrigDirect => "origdirect"@,
        NloptAlgorithm::Crs2Lm => "crs2lm"@,
        NloptAlgorithm::Direct => "direct"@,
        NloptAlgorithm::DirectL => "directl"@,
        NloptAlgorithm::GMlsl => "gmlsl"@,
        NloptAlgorithm::GMlslLds => "gmlsllds"@,
        NloptAlgorithm::Sbplx => "sbplx"@,
        NloptAlgorithm::Slsqp => "slsqp"@,
        NloptAlgorithm::StoGo => "stogo"@,
        NloptAlgorithm::StoGoRand => "stogorand"@,
    }
}

/// The NLopt algorithm that an unprefixed NLopt name selects; an unknown
/// name selects ISRES.
pub open spec fn nlopt_named(s: Seq<char>) -> NloptAlgorithm {
    if s == "bobyqa"@ {
        NloptAlgorithm::Bobyqa
    } else if s == "cobyla"@ {
        NloptAlgorithm::Cobyla
    } else if s == "neldermead"@ {
        NloptAlgorithm::Neldermead
    } else if s == "isres"@ {
        NloptAlgorithm::Isres
    } else if s == "ags"@ {
        NloptAlgorithm::Ags
    } else if s == "origdirect"@ {
        NloptAlgorithm::OrigDirect
    } else if s == "crs2lm"@ {
        NloptAlgorithm::Crs2Lm
    } else if s == "direct"@ {
        NloptAlgorithm::Direct
    } else if s == "directl"@ {
        NloptAlgorithm::DirectL
    } else if s == "gmlsl"@ {
        NloptAlgorithm::GMlsl
    } else if s == "gmlsllds"@ {
        NloptAlgorithm::GMlslLds
    } else if s == "sbplx"@ {
        NloptAlgorithm::Sbplx
    } else if s == "slsqp"@ {
        NloptAlgorithm::Slsqp
    } else if s == "stogo"@ {
        NloptAlgorithm::StoGo
    } else if s == "stogorand"@ {
        NloptAlgorithm::StoGoRand
    } else {
        NloptAlgorithm::Isres
    }
}

fn nlopt_from_name(s: &str) -> (a: NloptAlgorithm)
    ensures
        a == nlopt_named(s@),
{
    if str_eq(s, "bobyqa") {
        NloptAlgorithm::Bobyqa
    } else if str_eq(s, "cobyla") {
        NloptAlgorithm::Cobyla
    } else if str_eq(s, "neldermead") {
        NloptAlgorithm::Neldermead
    } else if str_eq(s, "isres") {
        NloptAlgorithm::Isres
    } else if str_eq(s, "ags") {
        NloptAlgorithm::Ags
    } else if str_eq(s, "origdirect") {
        NloptAlgorithm::OrigDirect
    } else if str_eq(s, "crs2lm") {
        NloptAlgorithm::Crs2Lm
    } else if str_eq(s, "direct") {
        NloptAlgorithm::Direct
    } else if str_eq(s, "directl") {
        NloptAlgorithm::DirectL
    } else if str_eq(s, "gmlsl") {
        NloptAlgorithm::GMlsl
    } else if str_eq(s, "gmlsllds") {
        NloptAlgorithm::GMlslLds
    } else if str_eq(s, "sbplx") {
        NloptAlgorithm::Sbplx
    } else if str_eq(s, "slsqp") {
        NloptAlgorithm::Slsqp
    } else if str_eq(s, "stogo") {
        NloptAlgorithm::StoGo
    } else if str_eq(s, "stogorand") {
        NloptAlgorithm::StoGoRand
    } else {
        NloptAlgorithm::Isres
    }
}

/// Which library runs an algorithm, with the algorithm's name inside it.
#[derive(PartialEq, Eq, Debug)]
pub enum AlgorithmCategory {
    /// An NLopt algorithm.
    Nlopt(NloptAlgorithm),
    /// A metaheuristic, by its unprefixed name.
    Metaheuristics(String),
    /// An algorithm of this project, by its unprefixed name.
    AutoEQ(String),
}

/// The category of the catalogue name `n`, described by the library
/// prefix it carries.
pub open spec fn category_matches(n: Seq<char>, c: Option<AlgorithmCategory>) -> bool {
    if has_prefix(n, "nlopt:"@) {
        c == Some(AlgorithmCategory::Nlopt(nlopt_named(n.skip(6))))
    } else if has_prefix(n, "mh:"@) {
        c matches Some(AlgorithmCategory::Metaheuristics(m)) && m@ == n.skip(3)
    } else if has_prefix(n, "autoeq:"@) {
        c matches Some(AlgorithmCategory::AutoEQ(m)) && m@ == n.skip(7)
    } else {
        c is None
    }
}

fn suffix_string(s: &str, k: usize) -> (r: String)
    requires
        k <= s@.len(),
    ensures
        r@ == s@.skip(k as int),
{
    let v = chars_of(s);
    string_from_range(&v, k, v.len())
}

/// Resolves an algorithm name (prefixed or not, in any ASCII case) to the
/// library that runs it; `None` for a name the catalogue does not hold.
pub fn parse_algorithm_name(name: &str) -> (r: Option<AlgorithmCategory>)
    ensures
        match designated(name@) {
            Some(i) => category_matches(algorithm_table()[i].0, r),
            None => r is None,
        },
{
    proof {
        reveal_strlit("nlopt:");
        reveal_strlit("mh:");
        reveal_strlit("autoeq:");
    }
    match find_algorithm_info(name) {
        Some(info) => {
            let n = info.name;
            if str_starts_with(n, "nlopt:") {
                let rest = suffix_string(n, 6);
                Some(AlgorithmCategory::Nlopt(nlopt_from_name(rest.as_str())))
            } else if str_starts_with(n, "mh:") {
                Some(AlgorithmCategory::Metaheuristics(suffix_string(n, 3)))
            } else if str_starts_with(n, "autoeq:") {
                Some(AlgorithmCategory::AutoEQ(suffix_string(n, 7)))
            } else {
                None
            }
        },
        None => None,
    }
}

/// The local algorithm used to polish a result, named in any ASCII case:
/// `sbplx` or `cobyla`, and Nelder-Mead for any other name.
pub fn parse_local_algo(name: &str) -> (a: NloptAlgorithm)
    ensures
        a == (if eq_ignore_ascii_case(name@, "sbplx"@) {
            NloptAlgorithm::Sbplx
        } else if eq_ignore_ascii_case(name@, "cobyla"@) {
            NloptAlgorithm::Cobyla
        } else {
            NloptAlgorithm::Neldermead
        }),
{
    if str_eq_ignore_ascii_case(name, "sbplx") {
        NloptAlgorithm::Sbplx
    } else if str_eq_ignore_ascii_case(name, "cobyla") {
        NloptAlgorithm::Cobyla
    } else {
        NloptAlgorithm::Neldermead
    }
}

/// Every catalogue name carries the prefix of one of the libraries.
pub proof fn lemma_catalogue_names_have_a_library(i: int)
    requires
        0 <= i < algorithm_table().len(),
    ensures
        ({
            let n = algorithm_table()[i].0;
            has_prefix(n, "nlopt:"@) || has_prefix(n, "mh:"@) || has_prefix(n, "autoeq:"@)
        }),
{
    reveal_strlit("nlopt:");
    reveal_strlit("mh:");
    reveal_strlit("autoeq:");
    reveal_strlit("nlopt");
    reveal_strlit("mh");
    reveal_strlit("autoeq");
    lemma_catalogue_spelling(i);
    let n = algorithm_table()[i].0;
    let k = colon_from(n, 0);
    lemma_colon_from_bounds(n, 0);
    assert(n.subrange(0, k + 1) =~= n.take(k).push(':'));
    assert("nlopt:"@ =~= "nlopt"@.push(':'));
    assert("mh:"@ =~= "mh"@.push(':'));
    assert("autoeq:"@ =~= "autoeq"@.push(':'));
}

/// Every NLopt entry of the catalogue, named in any ASCII case, resolves to
/// the NLopt algorithm of its own name: the one the catalogue lists under
/// the entry's name without its prefix. So no two NLopt entries resolve to
/// the same algorithm.
pub proof fn lemma_nlopt_names_resolve_to_their_algorithm(
    i: int,
    t: Seq<char>,
    r: Option<AlgorithmCategory>,
)
    requires
        0 <= i < algorithm_table().len(),
        library_prefix(algorithm_table()[i].0) == "nlopt"@,
        eq_ignore_ascii_case(t, algorithm_table()[i].0),
        match designated(t) {
            Some(k) => category_matches(algorithm_table()[k].0, r),
            None => r is None,
        },
    ensures
        r matches Some(AlgorithmCategory::Nlopt(a)) && nlopt_algorithm_name(a) == unprefixed_name(
            algorithm_table()[i].0,
        ),
{
    reveal_strlit("nlopt");
    reveal_strlit("nlopt:");
    lemma_catalogue_name_designates_itself(i, t);
    lemma_catalogue_spelling(i);
    let n = algorithm_table()[i].0;
    lemma_colon_from_bounds(n, 0);
    assert("nlopt"@.len() == 5);
    assert(n.subrange(0, 6) =~= "nlopt:"@);
}

/// A catalogue name, in any ASCII case, always resolves to a library.
pub proof fn lemma_catalogue_names_resolve(i: int, t: Seq<char>, r: Option<AlgorithmCategory>)
    requires
        0 <= i < algorithm_table().len(),
        eq_ignore_ascii_case(t, algorithm_table()[i].0),
        match designated(t) {
            Some(k) => category_matches(algorithm_table()[k].0, r),
            None => r is None,
        },
    ensures
        r is Some,
{
    lemma_catalogue_name_designates_itself(i, t);
    lemma_catalogue_names_have_a_library(i);
}

/// Whether an NLopt algorithm lacks native inequality constraints, so that
/// the constraints are folded into the objective as penalties.
pub open spec fn lacks_inequality_constraints(a: NloptAlgorithm) -> bool {
    match a {
        NloptAlgorithm::Crs2Lm | NloptAlgorithm::Direct | NloptAlgorithm::DirectL
        | NloptAlgorithm::GMlsl | NloptAlgorithm::GMlslLds | NloptAlgorithm::Sbplx
        | NloptAlgorithm::StoGo | NloptAlgorithm::StoGoRand | NloptAlgorithm::Neldermead => true,
        _ => false,
    }
}

/// Whether an NLopt run replaces its constraints by penalty terms.
pub fn nlopt_uses_penalties(a: NloptAlgorithm) -> (b: bool)
    ensures
        b == lacks_inequality_constraints(a),
{
    match a {
        NloptAlgorithm::Crs2Lm | NloptAlgorithm::Direct | NloptAlgorithm::DirectL
        | NloptAlgorithm::GMlsl | NloptAlgorithm::GMlslLds | NloptAlgorithm::Sbplx
        | NloptAlgorithm::StoGo | NloptAlgorithm::StoGoRand | NloptAlgorithm::Neldermead => true,
        _ => false,
    }
}

/// Population size and iteration limit of a differential-evolution run:
/// the population is at least 15, and the iterations are capped both by
/// the evaluation budget and by ten times the population.
pub fn de_run_sizes(population: usize, maxeval: usize) -> (r: (usize, usize))
    requires
        (if population < 15 { 15 } else { population }) * 10 <= usize::MAX,
    ensures
        r.0 == (if population < 15 { 15 } else { population }),
        r.1 == (if maxeval < r.0 * 10 { maxeval as int } else { r.0 * 10 }),
{
    let pop_size = if population < 15 { 15 } else { population };
    let cap = pop_size * 10;
    let max_iter = if maxeval < cap { maxeval } else { cap };
    (pop_size, max_iter)
}

/// The metaheuristic solvers.
#[derive(PartialEq, Eq, Structural, Clone, Copy, Debug)]
pub enum MetaheuristicKind {
    /// Differential evolution.
    De,
    /// Particle swarm optimisation.
    Pso,
    /// Real-coded genetic algorithm.
    Rga,
    /// Teaching-learning-based optimisation.
    Tlbo,
    /// Firefly algorithm.
    Fa,
}

/// The solver that an unprefixed metaheuristic name selects: `de`, `pso`,
/// `rga`, `tlbo` and `fa` select their solver, any other name selects
/// differential evolution.
pub open spec fn metaheuristic_named(s: Seq<char>) -> MetaheuristicKind {
    if s == "pso"@ {
        MetaheuristicKind::Pso
    } else if s == "rga"@ {
        MetaheuristicKind::Rga
    } else if s == "tlbo"@ {
        MetaheuristicKind::Tlbo
    } else if s == "fa"@ {
        MetaheuristicKind::Fa
    } else {
        MetaheuristicKind::De
    }
}

/// Selects a metaheuristic solver by its unprefixed name.
pub fn metaheuristic_solver(name: &str) -> (k: MetaheuristicKind)
    ensures
        k == metaheuristic_named(name@),
{
    if str_eq(name, "pso") {
        MetaheuristicKind::Pso
    } else if str_eq(name, "rga") {
        MetaheuristicKind::Rga
    } else if str_eq(name, "tlbo") {
        MetaheuristicKind::Tlbo
    } else if str_eq(name, "fa") {
        MetaheuristicKind::Fa
    } else {
        MetaheuristicKind::De
    }
}

/// Population and number of generations of a metaheuristic run: the
/// population is at least one, and the generations are the evaluation
/// budget (at least one population's worth) divided by the population,
/// rounded up.
pub fn metaheuristic_schedule(population: usize, maxeval: usize) -> (r: (usize, usize))
    requires
        ({
            let p = if population < 1 { 1 } else { population as int };
            (if maxeval < p { p } else { maxeval as int }) + p - 1 <= usize::MAX
        }),
    ensures
        r.0 == (if population < 1 { 1 } else { population }),
        r.1 == ((if maxeval < r.0 { r.0 as int } else { maxeval as int }) + r.0 - 1) / (r.0 as int),
{
    let pop = if population < 1 { 1 } else { population };
    let budget = if maxeval < pop { pop } else { maxeval };
    let gens = (budget + (pop - 1)) / pop;
    (pop, gens)
}

} // verus!
