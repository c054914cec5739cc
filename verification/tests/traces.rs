use autoeq::traces::{
    collect_trace_names, extract_curve_by_name, is_target_trace_name, AxisData, ExtractError,
    PlotTrace,
};
use autoeq::typed_array::{decode_base64, dtype_from_name, typed_values, DType, TypedValues};

fn base64_encode(bytes: &[u8]) -> String {
    let alphabet = b"ABCDEFGHIJKLMNOPQRSTUVWXYZabcdefghijklmnopqrstuvwxyz0123456789+/";
    let mut out = String::new();
    let mut i = 0;
    while i < bytes.len() {
        let b0 = bytes[i];
        let b1 = if i + 1 < bytes.len() { bytes[i + 1] } else { 0 };
        let b2 = if i + 2 < bytes.len() { bytes[i + 2] } else { 0 };
        out.push(alphabet[(b0 >> 2) as usize] as char);
        out.push(alphabet[(((b0 & 0x03) << 4) | (b1 >> 4)) as usize] as char);
        if i + 1 < bytes.len() {
            out.push(alphabet[(((b1 & 0x0F) << 2) | (b2 >> 6)) as usize] as char);
        } else {
            out.push('=');
        }
        if i + 2 < bytes.len() {
            out.push(alphabet[(b2 & 0x3F) as usize] as char);
        } else {
            out.push('=');
        }
        i += 3;
    }
    out
}

fn le_f64_bytes(vals: &[f64]) -> Vec<u8> {
    vals.iter().flat_map(|v| v.to_le_bytes()).collect()
}

fn typed(values: &[f64]) -> AxisData {
    AxisData::Typed { dtype: "f8".to_string(), bdata: base64_encode(&le_f64_bytes(values)) }
}

fn trace(name: Option<&str>, x: Option<AxisData>, y: Option<AxisData>) -> PlotTrace {
    PlotTrace { name: name.map(|s| s.to_string()), x, y }
}

fn floats(t: &TypedValues) -> Vec<f64> {
    match t {
        TypedValues::Float64Bits(v) => v.iter().map(|b| f64::from_bits(*b)).collect(),
        TypedValues::Float32Bits(v) => v.iter().map(|b| f32::from_bits(*b) as f64).collect(),
        TypedValues::Integers(v) => v.iter().map(|i| *i as f64).collect(),
    }
}

#[test]
fn collects_trace_names_from_data_array() {
    let traces = vec![
        trace(Some("Listening Window"), Some(AxisData::Other), Some(AxisData::Other)),
        trace(Some("CEA2034"), None, None),
        trace(None, Some(AxisData::Other), None),
    ];
    let names = collect_trace_names(&traces);
    assert_eq!(names, vec!["Listening Window", "CEA2034"]);
}

#[test]
fn handles_missing_or_wrong_shape() {
    assert!(collect_trace_names(&vec![]).is_empty());
    let unnamed = vec![trace(None, None, None)];
    assert!(collect_trace_names(&unnamed).is_empty());
}

#[test]
fn fallback_for_non_cea_measurements() {
    assert!(is_target_trace_name("Other", "ignored", "On Axis"));
    assert!(!is_target_trace_name("Other", "ignored", "SPL something"));
    assert!(!is_target_trace_name("Other", "ignored", "PIR"));
}

#[test]
fn cea2034_needs_the_exact_curve_name() {
    assert!(is_target_trace_name("cea2034", "Listening Window", "Listening Window"));
    assert!(!is_target_trace_name("CEA2034", "Listening Window", "Listening Window DI"));
    assert!(is_target_trace_name(
        "Estimated In-Room Response",
        "Estimated In-Room Response",
        "Estimated In-Room Response"
    ));
}

#[test]
fn extract_curve_by_name_decodes_typed_arrays() {
    let xf = [100.0_f64, 1000.0_f64];
    let yf = [80.0_f64, 85.0_f64];
    let traces = vec![
        trace(Some("Listening Window"), Some(typed(&xf)), Some(typed(&yf))),
        trace(Some("On Axis"), Some(typed(&xf)), Some(typed(&yf))),
    ];
    let curve = extract_curve_by_name(&traces, "CEA2034", "Listening Window").unwrap();
    let freq = floats(&curve.freq);
    let spl = floats(curve.spl.as_ref().unwrap());
    assert_eq!(freq.len(), 2);
    assert_eq!(spl.len(), 2);
    assert!((freq[0] - 100.0).abs() < 1e-12);
    assert!((freq[1] - 1000.0).abs() < 1e-12);
    assert!((spl[0] - 80.0).abs() < 1e-12);
    assert!((spl[1] - 85.0).abs() < 1e-12);
}

#[test]
fn extract_curve_by_name_requires_exact_match_for_cea2034() {
    let xf = [200.0_f64, 400.0_f64];
    let yf = [70.0_f64, 72.0_f64];
    let traces = vec![trace(Some("Listening Window"), Some(typed(&xf)), Some(typed(&yf)))];
    let curve = extract_curve_by_name(&traces, "CEA2034", "Listening Window").unwrap();
    let freq = floats(&curve.freq);
    assert_eq!(freq.len(), 2);
    assert!((freq[0] - 200.0).abs() < 1e-12);
}

#[test]
fn extraction_fails_without_frequencies() {
    let yf = [70.0_f64];
    let no_axis = vec![trace(Some("On Axis"), Some(AxisData::Other), Some(typed(&yf)))];
    assert_eq!(
        extract_curve_by_name(&no_axis, "CEA2034", "On Axis").err(),
        Some(ExtractError::NoCurveData)
    );
    let missing = vec![trace(Some("Sound Power"), Some(typed(&yf)), None)];
    assert_eq!(
        extract_curve_by_name(&missing, "CEA2034", "Sound Power").err(),
        Some(ExtractError::NoCurveData)
    );
    let empty = vec![trace(
        Some("On Axis"),
        Some(AxisData::Typed { dtype: "f8".to_string(), bdata: String::new() }),
        Some(typed(&yf)),
    )];
    assert_eq!(
        extract_curve_by_name(&empty, "CEA2034", "On Axis").err(),
        Some(ExtractError::NoCurveData)
    );
}

#[test]
fn levels_are_absent_when_y_is_not_typed() {
    let xf = [10.0_f64];
    let traces = vec![trace(Some("On Axis"), Some(typed(&xf)), Some(AxisData::Other))];
    let curve = extract_curve_by_name(&traces, "CEA2034", "On Axis").unwrap();
    assert!(curve.spl.is_none());
}

#[test]
fn base64_round_trip_and_padding() {
    let data: Vec<u8> = (0u8..=20).collect();
    assert_eq!(decode_base64(&base64_encode(&data)), data);
    assert_eq!(decode_base64("TWE="), b"Ma".to_vec());
    assert_eq!(decode_base64("TQ=="), b"M".to_vec());
    assert_eq!(decode_base64(""), Vec::<u8>::new());
}

#[test]
fn integer_dtypes_are_little_endian_and_signed() {
    let bytes = vec![0xFFu8, 0xFF, 0x01, 0x00];
    assert_eq!(dtype_from_name("i2"), DType::I2);
    match typed_values(&bytes, DType::I2) {
        TypedValues::Integers(v) => assert_eq!(v, vec![-1, 1]),
        _ => panic!("integers expected"),
    }
    match typed_values(&bytes, DType::U2) {
        TypedValues::Integers(v) => assert_eq!(v, vec![65535, 1]),
        _ => panic!("integers expected"),
    }
    match typed_values(&bytes, dtype_from_name("u1c")) {
        TypedValues::Integers(v) => assert_eq!(v, vec![255, 255, 1, 0]),
        _ => panic!("integers expected"),
    }
    match typed_values(&vec![1, 2, 3], DType::F4) {
        TypedValues::Float32Bits(v) => assert!(v.is_empty()),
        _ => panic!("float bits expected"),
    }
}

#[test]
fn extract_cea2034_curves_errors_when_curve_missing() {
    let xf = [100.0_f64, 1000.0_f64];
    let yf = [80.0_f64, 85.0_f64];
    let traces = vec![trace(Some("Listening Window"), Some(typed(&xf)), Some(typed(&yf)))];
    let r = autoeq::traces::extract_cea2034_arrays(&traces, "CEA2034");
    assert_eq!(
        r.err(),
        Some(autoeq::traces::Cea2034Error::MissingCurve {
            name: "On Axis".to_string(),
            available: vec!["Listening Window".to_string()],
        })
    );
}

#[test]
fn cea2034_set_is_read_in_order() {
    let xf = [100.0_f64, 1000.0_f64, 2000.0_f64];
    let names = [
        "On Axis",
        "Listening Window",
        "Early Reflections",
        "Sound Power",
        "Early Reflections DI",
        "Sound Power DI",
    ];
    let traces: Vec<PlotTrace> = names
        .iter()
        .enumerate()
        .map(|(i, n)| trace(Some(*n), Some(typed(&xf)), Some(typed(&[i as f64; 3]))))
        .rev()
        .collect();
    let v = autoeq::traces::extract_cea2034_arrays(&traces, "CEA2034").unwrap();
    assert_eq!(v.len(), 6);
    for (i, a) in v.iter().enumerate() {
        assert_eq!(floats(a.spl.as_ref().unwrap()), vec![i as f64; 3]);
        assert_eq!(floats(&a.freq), xf.to_vec());
    }
}

#[test]
fn encoded_integers_read_back_as_written() {
    let vals: [i64; 4] = [-32768, -1, 0, 32767];
    let bytes: Vec<u8> = vals.iter().flat_map(|v| (*v as i16).to_le_bytes()).collect();
    match typed_values(&decode_base64(&base64_encode(&bytes)), DType::I2) {
        TypedValues::Integers(v) => assert_eq!(v, vals.to_vec()),
        _ => panic!("integers expected"),
    }
    let words: [i64; 3] = [0, 1, 4_294_967_295];
    let bytes: Vec<u8> = words.iter().flat_map(|v| (*v as u32).to_le_bytes()).collect();
    match typed_values(&decode_base64(&base64_encode(&bytes)), DType::U4) {
        TypedValues::Integers(v) => assert_eq!(v, words.to_vec()),
        _ => panic!("integers expected"),
    }
    let small: [i64; 3] = [-128, 5, 127];
    let bytes: Vec<u8> = small.iter().map(|v| *v as i8 as u8).collect();
    match typed_values(&decode_base64(&base64_encode(&bytes)), DType::I1) {
        TypedValues::Integers(v) => assert_eq!(v, small.to_vec()),
        _ => panic!("integers expected"),
    }
}
