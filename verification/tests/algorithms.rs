use autoeq::algorithms::{
    de_run_sizes, find_algorithm_info, get_all_algorithms, metaheuristic_schedule,
    metaheuristic_solver, nlopt_uses_penalties, parse_algorithm_name, parse_local_algo,
    AlgorithmCategory, AlgorithmType, MetaheuristicKind, NloptAlgorithm,
};

#[test]
fn catalogue_lists_every_algorithm() {
    let all = get_all_algorithms();
    assert_eq!(all.len(), 21);
    assert_eq!(all[0].name, "nlopt:isres");
    assert_eq!(all[20].name, "autoeq:de");
    assert_eq!(all[20].library, "AutoEQ");
    assert!(all[20].supports_nonlinear_constraints);
    assert_eq!(all[8].algorithm_type, AlgorithmType::Local);
}

#[test]
fn every_catalogue_name_finds_its_entry() {
    for a in get_all_algorithms() {
        let found = find_algorithm_info(a.name).unwrap();
        assert_eq!(found.name, a.name);
        let upper = a.name.to_uppercase();
        assert_eq!(find_algorithm_info(&upper).unwrap().name, a.name);
    }
}

#[test]
fn unprefixed_names_find_the_first_entry_with_that_suffix() {
    assert_eq!(find_algorithm_info("ISRES").unwrap().name, "nlopt:isres");
    assert_eq!(find_algorithm_info("de").unwrap().name, "mh:de");
    assert_eq!(find_algorithm_info("Cobyla").unwrap().algorithm_type, AlgorithmType::Local);
    assert!(find_algorithm_info("nope").is_none());
    assert!(find_algorithm_info("nlopt:").is_none());
}

#[test]
fn names_resolve_to_their_library() {
    assert_eq!(parse_algorithm_name("isres"), Some(AlgorithmCategory::Nlopt(NloptAlgorithm::Isres)));
    assert_eq!(
        parse_algorithm_name("nlopt:gmlsllds"),
        Some(AlgorithmCategory::Nlopt(NloptAlgorithm::GMlslLds))
    );
    assert_eq!(
        parse_algorithm_name("MH:PSO"),
        Some(AlgorithmCategory::Metaheuristics("pso".to_string()))
    );
    assert_eq!(parse_algorithm_name("autoeq:de"), Some(AlgorithmCategory::AutoEQ("de".to_string())));
    assert_eq!(parse_algorithm_name("unknown"), None);
}

#[test]
fn local_polish_algorithms() {
    assert_eq!(parse_local_algo("SBPLX"), NloptAlgorithm::Sbplx);
    assert_eq!(parse_local_algo("cobyla"), NloptAlgorithm::Cobyla);
    assert_eq!(parse_local_algo("neldermead"), NloptAlgorithm::Neldermead);
    assert_eq!(parse_local_algo("bobyqa"), NloptAlgorithm::Neldermead);
}

#[test]
fn penalties_for_unconstrained_nlopt_algorithms() {
    assert!(nlopt_uses_penalties(NloptAlgorithm::Direct));
    assert!(nlopt_uses_penalties(NloptAlgorithm::Neldermead));
    assert!(!nlopt_uses_penalties(NloptAlgorithm::Isres));
    assert!(!nlopt_uses_penalties(NloptAlgorithm::Cobyla));
}

#[test]
fn run_sizes() {
    assert_eq!(de_run_sizes(4, 1000), (15, 150));
    assert_eq!(de_run_sizes(100, 500), (100, 500));
    assert_eq!(metaheuristic_schedule(0, 10), (1, 10));
    assert_eq!(metaheuristic_schedule(30, 100), (30, 4));
    assert_eq!(metaheuristic_schedule(30, 5), (30, 1));
    assert_eq!(metaheuristic_solver("tlbo"), MetaheuristicKind::Tlbo);
    assert_eq!(metaheuristic_solver("firefly"), MetaheuristicKind::De);
}

#[test]
fn every_catalogue_name_resolves_to_a_library() {
    for a in get_all_algorithms() {
        assert!(parse_algorithm_name(a.name).is_some());
        assert!(parse_algorithm_name(&a.name.to_ascii_uppercase()).is_some());
    }
}

#[test]
fn catalogue_entries_follow_their_library() {
    let all = get_all_algorithms();
    for (i, a) in all.iter().enumerate() {
        assert_eq!(a.name.matches(':').count(), 1);
        let (prefix, rest) = a.name.split_once(':').unwrap();
        assert!(!prefix.is_empty());
        assert!(!rest.is_empty());
        assert_eq!(a.library == "NLOPT", prefix == "nlopt");
        assert_eq!(a.library == "Metaheuristics", prefix == "mh");
        assert_eq!(a.library == "AutoEQ", prefix == "autoeq");
        if a.supports_linear_constraints {
            assert!(a.supports_nonlinear_constraints);
        }
        if prefix == "mh" {
            assert_eq!(a.algorithm_type, AlgorithmType::Global);
            assert!(!a.supports_linear_constraints);
            assert!(!a.supports_nonlinear_constraints);
        }
        for b in all.iter().skip(i + 1) {
            assert!(!a.name.eq_ignore_ascii_case(b.name));
        }
    }
}

#[test]
fn unprefixed_names_designate_the_first_entry_with_that_name() {
    let all = get_all_algorithms();
    for a in &all {
        let rest = a.name.split_once(':').unwrap().1;
        let first = all
            .iter()
            .find(|b| b.name.split_once(':').unwrap().1.eq_ignore_ascii_case(rest))
            .unwrap();
        assert_eq!(find_algorithm_info(rest).unwrap().name, first.name);
        assert_eq!(find_algorithm_info(&rest.to_ascii_uppercase()).unwrap().name, first.name);
    }
    assert_eq!(find_algorithm_info("DE").unwrap().name, "mh:de");
}
