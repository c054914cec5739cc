use autoeq::benchmark::{
    benchmark_jobs, benchmark_scenarios, job_count, sort_names, speakers_for_run, BenchArgs,
};
use autoeq::settings::LossType;

#[test]
fn names_are_sorted() {
    let names: Vec<String> = ["b", "KEF", "a", "Ab", "ab"].iter().map(|s| s.to_string()).collect();
    let mut expected = names.clone();
    expected.sort();
    assert_eq!(sort_names(names), expected);
}

#[test]
fn smoke_runs_take_five_speakers() {
    let speakers: Vec<String> = (0..8).map(|i| format!("s{}", i)).collect();
    assert_eq!(speakers_for_run(speakers.clone(), true).len(), 5);
    assert_eq!(speakers_for_run(speakers.clone(), false).len(), 8);
    assert_eq!(speakers_for_run(vec!["x".to_string()], true), vec!["x".to_string()]);
    let args = BenchArgs { smoke_test: true, jobs: 0 };
    assert!(args.smoke_test);
}

#[test]
fn jobs_default_to_the_cores() {
    assert_eq!(job_count(3, 8), 3);
    assert_eq!(job_count(0, 8), 8);
    assert_eq!(benchmark_jobs(4), 4);
    assert!(benchmark_jobs(0) >= 1);
}

#[test]
fn three_scenarios() {
    let s = benchmark_scenarios();
    assert_eq!(s.len(), 3);
    assert_eq!(s[0].curve_name, Some("Listening Window"));
    assert_eq!(s[1].measurement, "Estimated In-Room Response");
    assert_eq!(s[2].loss, LossType::Score);
    assert_eq!(s[2].curve_name, None);
}
