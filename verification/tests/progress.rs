use autoeq::progress::{de_status, ProgressMark, StallTracker};

#[test]
fn stalls_are_counted_and_reported() {
    let mut t = StallTracker::new();
    let r = t.observe(1, true);
    assert_eq!(r.mark, ProgressMark::Improved);
    assert!(r.print_line);
    let r = t.observe(2, false);
    assert_eq!(r.mark, ProgressMark::Flat);
    assert!(r.print_line);
    let r = t.observe(3, false);
    assert!(!r.print_line);
    for i in 4..51 {
        t.observe(i, false);
    }
    assert_eq!(t.stall_count, 49);
    let r = t.observe(51, false);
    assert_eq!(r.mark, ProgressMark::Stalled(50));
    assert!(r.print_line);
    assert!(t.observe(100, true).print_params);
}

#[test]
fn final_status_lines() {
    assert_eq!(de_status("AutoDE", true, "converged"), "AutoEQ AutoDE: converged");
    assert_eq!(
        de_status("AutoDE", false, "max iterations"),
        "AutoEQ AutoDE: max iterations (not converged)"
    );
}
