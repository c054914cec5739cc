use autoeq::strategy::{Crossover, Init, Strategy, Updating};

#[test]
fn parse_strategy_variants() {
    assert!(matches!("best1exp".parse::<Strategy>().unwrap(), Strategy::Best1Exp));
    assert!(matches!("rand1bin".parse::<Strategy>().unwrap(), Strategy::Rand1Bin));
    assert!(matches!("randtobest1exp".parse::<Strategy>().unwrap(), Strategy::RandToBest1Exp));
}

#[test]
fn strategy_aliases_and_case() {
    assert_eq!(Strategy::parse("BEST1"), Ok(Strategy::Best1Bin));
    assert_eq!(Strategy::parse("current-to-best1exp"), Ok(Strategy::CurrentToBest1Exp));
    assert_eq!(Strategy::parse("Rand_To_Best1Bin"), Ok(Strategy::RandToBest1Bin));
    assert_eq!(Strategy::parse("rand2"), Ok(Strategy::Rand2Bin));
    assert_eq!(Strategy::parse("best2exp"), Ok(Strategy::Best2Exp));
    assert_eq!(Strategy::parse("Best9"), Err("unknown strategy: Best9".to_string()));
}

#[test]
fn discrete_defaults() {
    assert_eq!(Crossover::default(), Crossover::Binomial);
    assert_eq!(Init::default(), Init::LatinHypercube);
    assert_eq!(Updating::default(), Updating::Deferred);
}

#[test]
fn every_alias_reads_as_its_strategy() {
    let cases = [
        ("best1bin", Strategy::Best1Bin),
        ("best1", Strategy::Best1Bin),
        ("best1exp", Strategy::Best1Exp),
        ("rand1", Strategy::Rand1Bin),
        ("rand1exp", Strategy::Rand1Exp),
        ("rand2exp", Strategy::Rand2Exp),
        ("current_to_best1bin", Strategy::CurrentToBest1Bin),
        ("CurrentToBest1Exp", Strategy::CurrentToBest1Exp),
        ("best2", Strategy::Best2Bin),
        ("rand-to-best1exp", Strategy::RandToBest1Exp),
    ];
    for (name, st) in cases {
        assert_eq!(Strategy::parse(name), Ok(st));
    }
}
