use autoeq::settings::{
    check_filter_count, check_search_budget, choose_input_source, default_population,
    local_maxeval, uses_cea2034_score, InputSource,
};

#[test]
fn tests_test_validate_params_invalid_num_filters() {
    let r = check_filter_count(0);
    assert!(r.is_err());
    assert!(r.unwrap_err().contains("Number of filters must be at least 1"));
    assert_eq!(
        check_filter_count(51),
        Err("Number of filters must be between 1 and 50 (got: 51)".to_string())
    );
    assert!(check_filter_count(5).is_ok());
}

#[test]
fn tests_test_validate_params_invalid_population() {
    let r = check_search_budget(0, 100, 2);
    assert!(r.is_err());
    assert!(r.unwrap_err().contains("Population size must be at least 1"));
    assert_eq!(
        check_search_budget(10001, 100, 2),
        Err("Population size must be between 1 and 10,000 (got: 10001)".to_string())
    );
}

#[test]
fn tests_test_validate_params_invalid_maxeval() {
    let r = check_search_budget(50, 0, 2);
    assert!(r.is_err());
    assert!(r.unwrap_err().contains("Maximum evaluations must be at least 1"));
}

#[test]
fn tests_test_validate_params_invalid_smooth_n() {
    let r = check_search_budget(50, 100, 0);
    assert!(r.is_err());
    assert!(r.unwrap_err().contains("Smoothing N must be between"));
    assert!(check_search_budget(50, 100, 2).is_ok());
}

#[test]
fn derived_budgets() {
    assert_eq!(default_population(1), 100);
    assert_eq!(default_population(6), 360);
    assert_eq!(local_maxeval(1), 1);
    assert_eq!(local_maxeval(200_000), 100_000);
}

#[test]
fn input_source_choice() {
    let api = choose_input_source(
        Some("KEF".to_string()),
        Some("v".to_string()),
        Some("CEA2034".to_string()),
        Some("c.csv".to_string()),
    );
    assert_eq!(
        api,
        Ok(InputSource::Api {
            speaker: "KEF".to_string(),
            version: "v".to_string(),
            measurement: "CEA2034".to_string()
        })
    );
    assert_eq!(
        choose_input_source(Some("KEF".to_string()), None, None, Some("c.csv".to_string())),
        Ok(InputSource::CsvFile("c.csv".to_string()))
    );
    assert_eq!(
        choose_input_source(None, None, None, None),
        Err("Either --curve or all of --speaker, --version, and --measurement must be provided".to_string())
    );
    assert!(uses_cea2034_score(Some("cea2034"), true, true));
    assert!(!uses_cea2034_score(Some("CEA2034"), true, false));
    assert!(!uses_cea2034_score(None, true, true));
}
