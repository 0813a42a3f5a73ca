use uncertainty::Dataset;
use uncertainty::Measure;
use uncertainty::ParseError;

fn close(a: f64, b: f64) -> bool {
    (a - b).abs() < 1e-9
}

#[test]
fn it_works() {
    let m: Measure<f32> = Measure { value: 2.0, error: 0.1 };
    let p: Measure<f32> = Measure { value: 4.0, error: 0.5 };
    println!("{}", (m / std::f32::consts::PI).to_string());
    println!("{}", (p / std::f32::consts::PI).to_string());

    let mut prova: Dataset<f32> = Dataset::new(Vec::from([m, p]));
    prova.index_mut(0).unwrap().error = 0.3;
    println!("{}", prova.index(0).unwrap().to_string());
    println!("{:?}", prova);
}

#[test]
fn addition_adds_values_and_errors() {
    let a = Measure { value: 10i64, error: 2 };
    let b = Measure { value: 3i64, error: 1 };
    assert_eq!(a + b, Measure { value: 13, error: 3 });
}

#[test]
fn subtraction_still_adds_errors() {
    let a = Measure { value: 10i64, error: 2 };
    let b = Measure { value: 3i64, error: 1 };
    assert_eq!(a - b, Measure { value: 7, error: 3 });
    let c = Measure { value: 1.5f64, error: 0.25 };
    let d = Measure { value: 0.5f64, error: 0.5 };
    let s = c - d;
    assert!(close(s.value, 1.0));
    assert!(close(s.error, 0.75));
    assert_eq!((c + d).error, (c - d).error);
}

#[test]
fn product_sums_relative_errors() {
    let a = Measure { value: 2.0f64, error: 0.1 };
    let b = Measure { value: 4.0f64, error: 0.5 };
    let r = a * b;
    assert!(close(r.value, 8.0));
    assert!(close(r.error, 8.0 * (0.1 / 2.0 + 0.5 / 4.0)));
    assert!(close(r.error, 1.4));
}

#[test]
fn quotient_scales_by_the_quotient() {
    let a = Measure { value: 2.0f64, error: 0.1 };
    let b = Measure { value: 4.0f64, error: 0.5 };
    let r = a / b;
    assert!(close(r.value, 0.5));
    assert!(close(r.error, 0.5 * (0.1 / 2.0 + 0.5 / 4.0)));
    assert!(close(r.error, 0.0875));
}

#[test]
fn integer_product_and_quotient() {
    let a = Measure { value: 10i64, error: 30 };
    let b = Measure { value: 5i64, error: 10 };
    assert_eq!(a * b, Measure { value: 50, error: 250 });
    assert_eq!(a / b, Measure { value: 2, error: 10 });
}

#[test]
fn scaling_is_linear() {
    let a = Measure { value: 1.5f64, error: 0.2 };
    let r = a * 3.0;
    assert!(close(r.value, 4.5));
    assert!(close(r.error, 0.6));
    let q = Measure { value: 9i64, error: 3 } / 3;
    assert_eq!(q, Measure { value: 3, error: 1 });
}

#[test]
fn relative_error_is_error_over_value() {
    let a = Measure { value: 4.0f64, error: 0.5 };
    assert!(close(a.relative_error(), 0.125));
    assert_eq!(Measure { value: 4i64, error: 8 }.relative_error(), 2);
}

#[test]
fn parentheses_are_optional() {
    let a = Measure::parse_with("(1.0\u{b1}2.2)", str::parse::<f32>);
    let b = Measure::parse_with("1.0\u{b1}2.2", str::parse::<f32>);
    assert_eq!(a, Ok(Measure { value: 1.0f32, error: 2.2 }));
    assert_eq!(a, b);
}

#[test]
fn white_space_around_components_is_tolerated() {
    let r = Measure::parse_with("  ( 3 \u{b1} 4 )  ", str::parse::<i64>);
    assert_eq!(r, Ok(Measure { value: 3, error: 4 }));
}

#[test]
fn malformed_value_is_rejected() {
    let r = Measure::parse_with("not a number\u{b1}2.2", str::parse::<f32>);
    assert!(matches!(r, Err(ParseError::Value(_))));
}

#[test]
fn malformed_error_is_rejected() {
    let r = Measure::parse_with("1.0\u{b1}oops", str::parse::<f32>);
    assert!(matches!(r, Err(ParseError::Error(_))));
}

#[test]
fn missing_separator_is_a_structure_error() {
    let r = Measure::parse_with("1.0", str::parse::<f32>);
    assert_eq!(r, Err(ParseError::MissingSeparator));
    let e = Measure::parse_with("", str::parse::<f32>);
    assert_eq!(e, Err(ParseError::MissingSeparator));
}

#[test]
fn text_after_a_second_separator_is_ignored() {
    let r = Measure::parse_with("1\u{b1}2\u{b1}3", str::parse::<i64>);
    assert_eq!(r, Ok(Measure { value: 1, error: 2 }));
}

#[test]
fn format_is_value_separator_error() {
    let m = Measure { value: 1.5f64, error: 0.25 };
    assert_eq!(m.to_string(), "1.5 \u{b1} 0.25");
    assert_eq!(Measure { value: -7i64, error: 2 }.to_string(), "-7 \u{b1} 2");
}

#[test]
fn format_then_parse_round_trips() {
    let m = Measure { value: -10.58f32, error: 0.018 };
    let back = Measure::parse_with(&m.to_string(), str::parse::<f32>);
    assert_eq!(back, Ok(m));
    let n = Measure { value: 123456789i64, error: 0 };
    assert_eq!(Measure::parse_with(&n.to_string(), str::parse::<i64>), Ok(n));
}
