use es_tools::json::{Json, JsonNumber, JsonObject};
use es_tools::query::{augment, SIZE_KEY, SOURCE_KEY};

fn text(s: &str) -> Json {
    Json::Text(s.to_string())
}

fn fields(names: &[&str]) -> Vec<String> {
    names.iter().map(|n| n.to_string()).collect()
}

fn body(entries: Vec<(&str, Json)>) -> JsonObject {
    let mut o = JsonObject::new();
    for (k, v) in entries {
        o.insert(k.to_string(), v);
    }
    o
}

#[test]
fn key_names() {
    assert_eq!(SIZE_KEY, "size");
    assert_eq!(SOURCE_KEY, "_source");
}

#[test]
fn size_over_the_cap_is_clamped() {
    let out = augment(body(vec![("size", Json::unsigned(500))]), &Vec::new(), 200);
    assert_eq!(out, body(vec![("size", Json::unsigned(200))]));
    let out = augment(body(vec![("size", Json::unsigned(201))]), &Vec::new(), 200);
    assert_eq!(out.get("size"), Some(&Json::unsigned(200)));
    let out = augment(body(vec![("size", Json::unsigned(u64::MAX))]), &Vec::new(), 0);
    assert_eq!(out.get("size"), Some(&Json::unsigned(0)));
}

#[test]
fn size_within_the_cap_is_kept() {
    for size in [0, 50, 199, 200] {
        let out = augment(body(vec![("size", Json::unsigned(size))]), &Vec::new(), 200);
        assert_eq!(out, body(vec![("size", Json::unsigned(size))]));
    }
}

fn real_number(x: f64) -> Json {
    Json::Number(JsonNumber::Real { bits: x.to_bits() })
}

#[test]
fn size_that_is_no_number_is_kept() {
    let odd = vec![
        text("500"),
        Json::Null,
        Json::Bool(true),
        Json::Array(vec![Json::unsigned(500)]),
        Json::Object(body(vec![("value", Json::unsigned(500))])),
    ];
    for value in odd {
        let out = augment(body(vec![("size", value.clone())]), &Vec::new(), 200);
        assert_eq!(out, body(vec![("size", value)]));
    }
}

#[test]
fn size_with_a_fraction_or_exponent_is_clamped_like_any_other() {
    for over in [500.0, 500.5, 5000.0, 1e9, 200.5, 200.00000000001, 1e300, f64::MAX] {
        let out = augment(body(vec![("size", real_number(over))]), &Vec::new(), 200);
        assert_eq!(out, body(vec![("size", Json::unsigned(200))]), "on {}", over);
    }
    for within in [200.0, 199.99, 50.0, 1.5, 0.0, -0.0, 1e-300, -1.0, -500.5, -1e300] {
        let out = augment(body(vec![("size", real_number(within))]), &Vec::new(), 200);
        assert_eq!(out, body(vec![("size", real_number(within))]), "on {}", within);
    }
}

#[test]
fn negative_size_is_kept() {
    for v in [-1, -500, i64::MIN] {
        let value = Json::Number(JsonNumber::Negative(v));
        let out = augment(body(vec![("size", value.clone())]), &Vec::new(), 200);
        assert_eq!(out, body(vec![("size", value)]));
    }
    // A number above zero counts as what it is, whatever form holds it.
    let out = augment(
        body(vec![("size", Json::Number(JsonNumber::Negative(500)))]),
        &Vec::new(),
        200,
    );
    assert_eq!(out, body(vec![("size", Json::unsigned(200))]));
    let kept = Json::Number(JsonNumber::Negative(200));
    let out = augment(body(vec![("size", kept.clone())]), &Vec::new(), 200);
    assert_eq!(out, body(vec![("size", kept)]));
}

/// Whether `x` is greater than `cap`, decided on the floating-point value.
fn is_over(x: f64, cap: u64) -> bool {
    if x.is_nan() || x < 0.0 {
        false
    } else if x >= 18446744073709551616.0 {
        true
    } else {
        // Below 2^64 the whole part fits, and the cut is exact.
        let whole = x.trunc() as u64;
        whole > cap || (whole == cap && x.fract() > 0.0)
    }
}

#[test]
fn comparison_of_reals_agrees_with_floating_point() {
    let caps = [
        0u64,
        1,
        2,
        199,
        200,
        201,
        4095,
        4096,
        (1 << 52) - 1,
        1 << 52,
        (1 << 53) - 1,
        1 << 53,
        (1 << 53) + 1,
        (1 << 63) - 1,
        1 << 63,
        u64::MAX - 2048,
        u64::MAX - 2047,
        u64::MAX - 1,
        u64::MAX,
    ];
    let mut values = vec![
        0.0,
        -0.0,
        f64::MIN_POSITIVE,
        f64::from_bits(1),
        f64::from_bits((1 << 52) - 1),
        0.5,
        0.999999,
        1.0,
        1.0000000000000002,
        1.5,
        2.0,
        199.5,
        200.0,
        200.5,
        4095.9,
        4096.0,
        4503599627370495.5,
        4503599627370496.0,
        9007199254740991.0,
        9007199254740992.0,
        9007199254740994.0,
        9223372036854775808.0,
        18446744073709549568.0,
        18446744073709551616.0,
        36893488147419103232.0,
        1e300,
        f64::MAX,
        f64::INFINITY,
        f64::NEG_INFINITY,
        f64::NAN,
        -f64::NAN,
        -1.0,
        -200.5,
        -1e300,
    ];
    for cap in caps {
        values.push(cap as f64);
        values.push(f64::from_bits((cap as f64).to_bits() + 1));
        values.push(f64::from_bits((cap as f64).to_bits().saturating_sub(1)));
    }
    for x in &values {
        for cap in caps {
            assert_eq!(
                JsonNumber::Real { bits: x.to_bits() }.exceeds(cap),
                is_over(*x, cap),
                "{} against {}",
                x,
                cap
            );
        }
    }
}

#[test]
fn comparison_of_whole_numbers() {
    assert!(JsonNumber::Unsigned(201).exceeds(200));
    assert!(!JsonNumber::Unsigned(200).exceeds(200));
    assert!(!JsonNumber::Unsigned(u64::MAX).exceeds(u64::MAX));
    assert!(JsonNumber::Unsigned(1).exceeds(0));
    assert!(!JsonNumber::Negative(-1).exceeds(0));
    assert!(!JsonNumber::Negative(0).exceeds(0));
    assert!(JsonNumber::Negative(1).exceeds(0));
    assert!(JsonNumber::Negative(i64::MAX).exceeds(200));
    assert!(!JsonNumber::Negative(i64::MAX).exceeds(u64::MAX));
}

#[test]
fn absent_size_is_not_inserted() {
    let out = augment(body(vec![("query", Json::Null)]), &Vec::new(), 200);
    assert_eq!(out, body(vec![("query", Json::Null)]));
    assert_eq!(augment(JsonObject::new(), &Vec::new(), 200), JsonObject::new());
}

#[test]
fn clamping_twice_changes_nothing_more() {
    let once = augment(
        body(vec![("query", text("q")), ("size", Json::unsigned(500)), ("from", Json::unsigned(3))]),
        &Vec::new(),
        200,
    );
    let twice = augment(once.clone(), &Vec::new(), 200);
    assert_eq!(once, twice);
    assert_eq!(
        once,
        body(vec![("query", text("q")), ("size", Json::unsigned(200)), ("from", Json::unsigned(3))])
    );
}

#[test]
fn fields_are_appended_to_a_source_list() {
    let out = augment(body(vec![("_source", Json::Array(vec![text("a")]))]), &fields(&["b"]), 200);
    assert_eq!(out, body(vec![("_source", Json::Array(vec![text("a"), text("b")]))]));
    let out = augment(
        body(vec![("_source", Json::Array(vec![Json::unsigned(1)])), ("size", Json::unsigned(9))]),
        &fields(&["b", "c", "b"]),
        5,
    );
    assert_eq!(
        out,
        body(vec![
            ("_source", Json::Array(vec![Json::unsigned(1), text("b"), text("c"), text("b")])),
            ("size", Json::unsigned(5)),
        ])
    );
}

#[test]
fn fields_become_the_source_list_where_there_is_none() {
    let out = augment(JsonObject::new(), &fields(&["b"]), 200);
    assert_eq!(out, body(vec![("_source", Json::Array(vec![text("b")]))]));
    let out = augment(body(vec![("size", Json::unsigned(1))]), &fields(&["x", "y"]), 200);
    assert_eq!(
        out,
        body(vec![("size", Json::unsigned(1)), ("_source", Json::Array(vec![text("x"), text("y")]))])
    );
}

#[test]
fn source_filter_of_another_form_is_kept() {
    for filter in [Json::Bool(false), text("a"), Json::Null, Json::Object(JsonObject::new())] {
        let out = augment(body(vec![("_source", filter.clone())]), &fields(&["b"]), 200);
        assert_eq!(out, body(vec![("_source", filter)]));
    }
}

#[test]
fn no_fields_leave_the_source_filter_alone() {
    let out = augment(body(vec![("_source", Json::Array(vec![text("a")]))]), &Vec::new(), 200);
    assert_eq!(out, body(vec![("_source", Json::Array(vec![text("a")]))]));
    let out = augment(body(vec![("query", Json::Null)]), &Vec::new(), 200);
    assert_eq!(out.get("_source"), None);
}
