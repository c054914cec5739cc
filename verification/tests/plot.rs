use autoeq::plot::{cea2034_trace_plan, filter_color, plot_title};

#[test]
fn color_palette_cycles() {
    assert_eq!(filter_color(0), "#1f77b4");
    assert_eq!(filter_color(3), "#d62728");
    assert_eq!(filter_color(9), "#17becf");
    assert_eq!(filter_color(10), "#1f77b4");
    assert_eq!(filter_color(13), "#d62728");
}

#[test]
fn test_create_cea2034_traces() {
    let curves: Vec<String> = ["On Axis", "Lateral", "Vertical", "Estimated In-Room Response"]
        .iter()
        .map(|s| s.to_string())
        .collect();
    let traces = cea2034_trace_plan(&curves, false);
    assert_eq!(traces.len(), 4);
    let eq_traces = cea2034_trace_plan(&curves, true);
    assert_eq!(eq_traces.len(), 4);
}

#[test]
fn trace_plan_prefers_primary_names_and_skips_missing_panels() {
    let curves: Vec<String> = ["Lateral", "Listening Window", "Sound Power"]
        .iter()
        .map(|s| s.to_string())
        .collect();
    let plan = cea2034_trace_plan(&curves, true);
    assert_eq!(plan.len(), 2);
    assert_eq!(plan[0].curve, "Listening Window");
    assert_eq!(plan[0].label, "Listening Window + EQ");
    assert_eq!((plan[0].x_axis, plan[0].y_axis), ("x4", "y4"));
    assert_eq!(plan[0].color_index, 5);
    assert_eq!(plan[1].curve, "Sound Power");
    assert_eq!((plan[1].x_axis, plan[1].y_axis), ("x6", "y6"));
    assert_eq!(plan[1].color_index, 7);
    let plain = cea2034_trace_plan(&curves, false);
    assert_eq!(plain[1].label, "Sound Power");
    assert_eq!(plain[1].color_index, 3);
}

#[test]
fn plot_titles() {
    assert_eq!(plot_title(Some("KEF R3"), 7), "KEF R3 -- #7 peq(s)");
    assert_eq!(plot_title(Some(""), 7), "IIR Filter Optimization Results");
    assert_eq!(plot_title(None, 3), "IIR Filter Optimization Results");
}
