use autoeq::payload::{api_payload_text, cached_payload_plan, unrecognized_cache, CachedPlan, JsonTop};

#[test]
fn normalize_plotly_handles_object_array_and_string() {
    assert_eq!(cached_payload_plan(&JsonTop::Object), CachedPlan::UseAsIs);
    let inner = "{\"data\":[{\"name\":\"Listening Window\"}]}".to_string();
    let api = JsonTop::Array { first: Some(Some(inner.clone())) };
    assert_eq!(
        cached_payload_plan(&api),
        CachedPlan::ParseInner { text: inner.clone(), unrecognized_on_failure: true }
    );
    assert_eq!(
        cached_payload_plan(&JsonTop::Str(inner.clone())),
        CachedPlan::ParseInner { text: inner, unrecognized_on_failure: false }
    );
}

#[test]
fn service_replies_must_wrap_a_string() {
    assert_eq!(
        api_payload_text(&JsonTop::Array { first: Some(Some("{}".to_string())) }),
        Ok("{}".to_string())
    );
    assert_eq!(
        api_payload_text(&JsonTop::Array { first: Some(None) }),
        Err("First element is not a string".to_string())
    );
    assert_eq!(
        api_payload_text(&JsonTop::Array { first: None }),
        Err("Empty API response".to_string())
    );
    assert_eq!(api_payload_text(&JsonTop::Object), Err("API response is not an array".to_string()));
    assert_eq!(cached_payload_plan(&JsonTop::Other), CachedPlan::Unrecognized);
    assert_eq!(cached_payload_plan(&JsonTop::Array { first: None }), CachedPlan::Unrecognized);
    assert_eq!(unrecognized_cache(), "Unrecognized cached JSON format");
}
