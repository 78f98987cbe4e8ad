use std::rc::Rc;
use vdbe::double::Double;
use vdbe::like::{exec_like, like_to_regex, try_like};
use vdbe::random::{
    drawn_integer, exec_random, random_integer, random_value, RandomUnavailable,
};
use vdbe::scalar::{
    exec_abs, exec_if, exec_length, exec_lower, exec_round, exec_trim, exec_upper, operand_places,
    operand_value, RoundOperand, Rounding,
};
use vdbe::value::OwnedValue;

fn double(x: f64) -> Double {
    Double::new(x.to_bits(), format!("{}", x), format!("{:?}", x))
}

fn float(x: f64) -> OwnedValue {
    OwnedValue::Float(double(x))
}

fn text(s: &str) -> OwnedValue {
    OwnedValue::Text(Rc::new(String::from(s)))
}

fn parsed(o: &RoundOperand) -> Option<u64> {
    match o {
        RoundOperand::Text(t) => t.parse().ok().map(f64::to_bits),
        RoundOperand::Number(_) => None,
    }
}

fn operand(o: &RoundOperand) -> f64 {
    f64::from_bits(operand_value(o, parsed(o)))
}

fn rounded(reg: &OwnedValue, precision: Option<OwnedValue>) -> OwnedValue {
    match exec_round(reg, precision) {
        Rounding::Value(v) => v,
        Rounding::Host { value, precision } => {
            let places = f64::from_bits(operand_places(&precision, parsed(&precision)));
            let multiplier = 10f64.powi(places as i32);
            float((operand(&value) * multiplier).round() / multiplier)
        }
    }
}

#[test]
fn test_length() {
    let input_str = OwnedValue::Text(Rc::new(String::from("bob")));
    let expected_len = OwnedValue::Integer(3);
    assert_eq!(exec_length(&input_str), expected_len);

    let input_integer = OwnedValue::Integer(123);
    let expected_len = OwnedValue::Integer(3);
    assert_eq!(exec_length(&input_integer), expected_len);

    let input_float = float(123.456);
    let expected_len = OwnedValue::Integer(7);
    assert_eq!(exec_length(&input_float), expected_len);

    // Expected byte array for "example"
    let expected_blob = OwnedValue::Blob(Rc::new(vec![101, 120, 97, 109, 112, 108, 101]));
    let expected_len = OwnedValue::Integer(7);
    assert_eq!(exec_length(&expected_blob), expected_len);
}

#[test]
fn test_trim() {
    let input_str = OwnedValue::Text(Rc::new(String::from("     Bob and Alice     ")));
    let expected_str = OwnedValue::Text(Rc::new(String::from("Bob and Alice")));
    assert_eq!(exec_trim(&input_str, None), expected_str);

    let input_str = OwnedValue::Text(Rc::new(String::from("     Bob and Alice     ")));
    let pattern_str = OwnedValue::Text(Rc::new(String::from("Bob and")));
    let expected_str = OwnedValue::Text(Rc::new(String::from("Alice")));
    assert_eq!(exec_trim(&input_str, Some(pattern_str)), expected_str);
}

#[test]
fn test_upper_case() {
    let input_str = OwnedValue::Text(Rc::new(String::from("Limbo")));
    let expected_str = OwnedValue::Text(Rc::new(String::from("LIMBO")));
    assert_eq!(exec_upper(&input_str).unwrap(), expected_str);

    let input_int = OwnedValue::Integer(10);
    assert_eq!(exec_upper(&input_int).unwrap(), input_int);
    assert_eq!(exec_upper(&OwnedValue::Null).unwrap(), OwnedValue::Null)
}

#[test]
fn test_lower_case() {
    let input_str = OwnedValue::Text(Rc::new(String::from("Limbo")));
    let expected_str = OwnedValue::Text(Rc::new(String::from("limbo")));
    assert_eq!(exec_lower(&input_str).unwrap(), expected_str);

    let input_int = OwnedValue::Integer(10);
    assert_eq!(exec_lower(&input_int).unwrap(), input_int);
    assert_eq!(exec_lower(&OwnedValue::Null).unwrap(), OwnedValue::Null)
}

#[test]
fn test_abs() {
    let int_positive_reg = OwnedValue::Integer(10);
    let int_negative_reg = OwnedValue::Integer(-10);
    assert_eq!(exec_abs(&int_positive_reg).unwrap(), int_positive_reg);
    assert_eq!(exec_abs(&int_negative_reg).unwrap(), int_positive_reg);

    let float_positive_reg = OwnedValue::Integer(10);
    let float_negative_reg = OwnedValue::Integer(-10);
    assert_eq!(exec_abs(&float_positive_reg).unwrap(), float_positive_reg);
    assert_eq!(exec_abs(&float_negative_reg).unwrap(), float_positive_reg);

    assert_eq!(
        exec_abs(&OwnedValue::Text(Rc::new(String::from("a")))).unwrap(),
        float(0.0)
    );
    assert_eq!(exec_abs(&OwnedValue::Null).unwrap(), OwnedValue::Null);
}

#[test]
fn test_like() {
    assert!(exec_like("a%", "aaaa"));
    assert!(exec_like("%a%a", "aaaa"));
    assert!(exec_like("%a.a", "aaaa"));
    assert!(exec_like("a.a%", "aaaa"));
    assert!(!exec_like("%a.ab", "aaaa"));
}

#[test]
fn test_random() {
    match exec_random() {
        Ok(OwnedValue::Integer(value)) => {
            // Check that the value is within the range of i64
            assert!(
                value >= i64::MIN && value <= i64::MAX,
                "Random number out of range"
            );
        }
        _ => panic!("exec_random did not return an Integer variant"),
    }
}

#[test]
fn test_exec_round() {
    let input_val = float(123.456);
    let expected_val = float(123.0);
    assert_eq!(rounded(&input_val, None), expected_val);

    let input_val = float(123.456);
    let precision_val = OwnedValue::Integer(2);
    let expected_val = float(123.46);
    assert_eq!(rounded(&input_val, Some(precision_val)), expected_val);

    let input_val = float(123.456);
    let precision_val = OwnedValue::Text(Rc::new(String::from("1")));
    let expected_val = float(123.5);
    assert_eq!(rounded(&input_val, Some(precision_val)), expected_val);

    let input_val = OwnedValue::Text(Rc::new(String::from("123.456")));
    let precision_val = OwnedValue::Integer(2);
    let expected_val = float(123.46);
    assert_eq!(rounded(&input_val, Some(precision_val)), expected_val);

    let input_val = OwnedValue::Integer(123);
    let precision_val = OwnedValue::Integer(1);
    let expected_val = float(123.0);
    assert_eq!(rounded(&input_val, Some(precision_val)), expected_val);
}

#[test]
fn test_exec_if() {
    let reg = OwnedValue::Integer(0);
    let null_reg = OwnedValue::Integer(0);
    assert!(!exec_if(&reg, &null_reg, false));
    assert!(exec_if(&reg, &null_reg, true));

    let reg = OwnedValue::Integer(1);
    let null_reg = OwnedValue::Integer(0);
    assert!(exec_if(&reg, &null_reg, false));
    assert!(!exec_if(&reg, &null_reg, true));

    let reg = OwnedValue::Null;
    let null_reg = OwnedValue::Integer(0);
    assert!(!exec_if(&reg, &null_reg, false));
    assert!(!exec_if(&reg, &null_reg, true));

    let reg = OwnedValue::Null;
    let null_reg = OwnedValue::Integer(1);
    assert!(exec_if(&reg, &null_reg, false));
    assert!(exec_if(&reg, &null_reg, true));

    let reg = OwnedValue::Null;
    let null_reg = OwnedValue::Null;
    assert!(!exec_if(&reg, &null_reg, false));
    assert!(!exec_if(&reg, &null_reg, true));
}

#[test]
fn if_on_floats_and_text() {
    assert!(exec_if(&float(0.5), &OwnedValue::Null, false));
    assert!(!exec_if(&float(0.0), &OwnedValue::Null, false));
    assert!(exec_if(&float(-0.0), &OwnedValue::Null, true));
    assert!(exec_if(&float(f64::NAN), &OwnedValue::Null, false));
    assert!(exec_if(&OwnedValue::Null, &float(2.0), true));
    assert!(!exec_if(&OwnedValue::Null, &float(0.0), false));
    assert!(!exec_if(&text("1"), &OwnedValue::Integer(1), false));
    assert!(!exec_if(&text("1"), &OwnedValue::Integer(1), true));
}

#[test]
fn length_counts_bytes_and_keeps_null() {
    assert_eq!(exec_length(&text("")), OwnedValue::Integer(0));
    assert_eq!(exec_length(&text("straße")), OwnedValue::Integer(7));
    assert_eq!(exec_length(&OwnedValue::Integer(-12)), OwnedValue::Integer(3));
    assert_eq!(exec_length(&OwnedValue::Null), OwnedValue::Null);
}

#[test]
fn case_mapping_of_other_alphabets() {
    assert_eq!(exec_upper(&text("straße")).unwrap(), text("STRASSE"));
    assert_eq!(exec_lower(&text("ÀÉÎ")).unwrap(), text("àéî"));
}

#[test]
fn case_mapping_of_ascii() {
    for code in 0..128u8 {
        let mut s = String::from("x");
        s.push(code as char);
        let v = text(&s);
        let (lower, upper) = (exec_lower(&v).unwrap(), exec_upper(&v).unwrap());
        assert_eq!(lower, text(&s.to_ascii_lowercase()));
        assert_eq!(upper, text(&s.to_ascii_uppercase()));
        assert_eq!(exec_lower(&upper).unwrap(), lower);
        assert_eq!(exec_lower(&lower).unwrap(), lower);
        assert_eq!(exec_upper(&lower).unwrap(), upper);
        assert_eq!(exec_length(&lower), OwnedValue::Integer(2));
    }
}

#[test]
fn absolute_values_of_floats() {
    assert_eq!(exec_abs(&float(-1.5)).unwrap(), float(1.5));
    assert_eq!(exec_abs(&float(1.5)).unwrap(), float(1.5));
    match exec_abs(&float(-1.5)).unwrap() {
        OwnedValue::Float(d) => {
            assert_eq!(d.bits, 1.5f64.to_bits());
            assert_eq!(d.plain, "1.5");
            assert_eq!(d.marked, "1.5");
        }
        _ => panic!("not a float"),
    }
    match exec_abs(&float(-0.0)).unwrap() {
        OwnedValue::Float(d) => assert_eq!(d.bits, (-0.0f64).to_bits()),
        _ => panic!("not a float"),
    }
    assert_eq!(
        exec_abs(&OwnedValue::Integer(i64::MIN + 1)).unwrap(),
        OwnedValue::Integer(i64::MAX)
    );
}

#[test]
fn trim_takes_numbers_as_they_are_shown() {
    assert_eq!(
        exec_trim(&OwnedValue::Integer(1221), Some(OwnedValue::Integer(1))),
        text("22")
    );
    assert_eq!(exec_trim(&float(0.50), Some(text("0"))), text(".5"));
    assert_eq!(exec_trim(&OwnedValue::Integer(12), None), OwnedValue::Integer(12));
    assert_eq!(exec_trim(&OwnedValue::Null, Some(text("x"))), OwnedValue::Null);
    assert_eq!(exec_trim(&text("xxx"), Some(text("x"))), text(""));
    assert_eq!(exec_trim(&text("NaN"), Some(OwnedValue::Null)), text("a"));
}

#[test]
fn trim_twice_changes_nothing_more() {
    let once = exec_trim(&text("--a-b--"), Some(text("-")));
    assert_eq!(once, text("a-b"));
    assert_eq!(exec_trim(&once, Some(text("-"))), once);
}

#[test]
fn trim_knows_white_space() {
    let mut code: u32 = 0;
    while code <= 0x10ffff {
        if let Some(c) = char::from_u32(code) {
            let mut padded = String::new();
            padded.push(c);
            padded.push('a');
            padded.push(c);
            let expected = padded.trim().to_string();
            if c.is_whitespace() || code < 0x300 || (0x1600..0x3100).contains(&code) {
                assert_eq!(exec_trim(&text(&padded), None), text(&expected));
            }
        }
        code += 1;
    }
}

#[test]
fn rounding_without_a_number() {
    match exec_round(&OwnedValue::Null, Some(OwnedValue::Integer(1))) {
        Rounding::Value(v) => assert_eq!(v, OwnedValue::Null),
        _ => panic!("nothing to round"),
    }
    match exec_round(&float(1.5), Some(OwnedValue::Null)) {
        Rounding::Value(v) => assert_eq!(v, OwnedValue::Null),
        _ => panic!("nothing to round to"),
    }
    match exec_round(&OwnedValue::Integer(5), None) {
        Rounding::Host { value, precision } => {
            assert_eq!(operand(&value), 5.0);
            assert_eq!(operand(&precision), 0.0);
        }
        _ => panic!("a number is to be rounded"),
    }
    for precision in [
        OwnedValue::Integer(0),
        OwnedValue::Integer(-4),
        OwnedValue::Integer(i64::MIN),
        float(0.99),
        float(-0.0),
        float(f64::NEG_INFINITY),
    ] {
        match exec_round(&float(1.5), Some(precision)) {
            Rounding::Host { value, precision: RoundOperand::Number(0) } => {
                assert_eq!(operand(&value), 1.5);
            }
            _ => panic!("no decimal places"),
        }
    }
    match exec_round(&OwnedValue::Integer(7), Some(OwnedValue::Integer(1))) {
        Rounding::Host { value: RoundOperand::Number(v), precision: RoundOperand::Number(p) } => {
            assert_eq!(v, 7.0f64.to_bits());
            assert_eq!(p, 1.0f64.to_bits());
        }
        _ => panic!("integers are taken as doubles"),
    }
    assert_eq!(rounded(&float(-2.5), None), float(-3.0));
    assert_eq!(rounded(&text("x"), Some(OwnedValue::Integer(-3))), float(0.0));
}

#[test]
fn rounding_takes_text_as_a_number() {
    assert_eq!(rounded(&text("2.75"), Some(text("1"))), rounded(&float(2.75), Some(float(1.0))));
    assert_eq!(rounded(&text("2.75"), Some(text("1"))), float(2.8));
    for none in ["x", "", "0.5", "-3"] {
        assert_eq!(rounded(&float(2.75), Some(text(none))), rounded(&float(2.75), None));
    }
    let t = RoundOperand::Text(String::from("any"));
    assert_eq!(operand_value(&t, None), 0);
    assert_eq!(operand_value(&t, Some(0.5f64.to_bits())), 0.5f64.to_bits());
    assert_eq!(operand_places(&t, Some(0.5f64.to_bits())), 0);
    assert_eq!(operand_places(&t, Some(2.0f64.to_bits())), 2.0f64.to_bits());
    assert_eq!(operand_places(&RoundOperand::Number(3.0f64.to_bits()), None), 3.0f64.to_bits());
}

// Whether a text is like a pattern, by trying every way to divide the text.
fn divided(pattern: &[char], text: &[char]) -> bool {
    match pattern.first() {
        None => text.is_empty(),
        Some('%') => (0..text.len() + 1).any(|n| divided(&pattern[1..], &text[n..])),
        Some(p) => match text.first() {
            None => false,
            Some(t) => (*p == '_' || *p == '.' || p == t) && divided(&pattern[1..], &text[1..]),
        },
    }
}

#[test]
fn texts_are_divided_among_wildcards() {
    let letters = ['a', '%', '_', '.', '*', '\n'];
    let mut texts: Vec<Vec<char>> = vec![vec![]];
    let mut from = 0;
    for _ in 0..3 {
        let to = texts.len();
        for i in from..to {
            for c in letters {
                let mut longer = texts[i].clone();
                longer.push(c);
                texts.push(longer);
            }
        }
        from = to;
    }
    for i in 0..texts.len() {
        let p: String = texts[i].iter().collect();
        for j in (i % 19..texts.len()).step_by(19) {
            let t: String = texts[j].iter().collect();
            assert_eq!(exec_like(&p, &t), divided(&texts[i], &texts[j]));
        }
    }
    assert!(exec_like("%", ""));
    assert!(exec_like("a%b%c", "axxbyyc"));
    assert!(!exec_like("a%b%c", "axxbyycd"));
}

#[test]
fn like_patterns_as_regular_expressions() {
    assert_eq!(like_to_regex("a%b_c"), "(?s)^(?:a.*b.c)$");
    assert_eq!(like_to_regex("plain"), "(?s)^(?:plain)$");
    assert_eq!(like_to_regex("1+1=(2)"), "(?s)^(?:1\\+1=\\(2\\))$");
    assert_eq!(try_like("a_c", "abc"), Some(true));
    assert_eq!(try_like("a_c", "xabcx"), Some(false));
    assert_eq!(try_like("a_c", "ac"), Some(false));
    assert_eq!(try_like("a%c", "a\nb\nc"), Some(true));
    assert_eq!(try_like("%b%", "a\nb\nc"), Some(true));
    assert_eq!(try_like("b", "a\nb\nc"), Some(false));
    assert_eq!(try_like("", ""), Some(true));
    assert_eq!(try_like("", "anything"), Some(false));
    let mut big = String::new();
    for _ in 0..200000 {
        big.push('_');
    }
    assert_eq!(try_like(&big, "a"), None);
}

#[test]
fn nothing_but_itself_is_like_a_pattern_without_wildcards() {
    assert!(exec_like("a", "a"));
    assert!(!exec_like("a", "ba"));
    assert!(!exec_like("a", "ab"));
    assert!(!exec_like("a", "A"));
    let odd = "\\+*?()[]{}|^$#&-~<>/ \"'\t\n\u{e9}\u{1F600}x0";
    assert!(exec_like(odd, odd));
    for c in odd.chars() {
        let mut pattern = String::new();
        pattern.push(c);
        for d in odd.chars() {
            let mut text = String::new();
            text.push(d);
            assert_eq!(exec_like(&pattern, &text), c == d);
        }
        assert!(!exec_like(&pattern, ""));
    }
}

#[test]
fn like_patterns_are_put_together_from_parts() {
    for (a, b) in [("a%", "_b"), ("", "%%"), ("x", ""), ("_", "y_")] {
        let mut whole = String::from(a);
        whole.push_str(b);
        let inner = |p: &str| {
            let re = like_to_regex(p);
            re["(?s)^(?:".len()..re.len() - ")$".len()].to_string()
        };
        let mut parts = inner(a);
        parts.push_str(&inner(b));
        assert_eq!(inner(&whole), parts);
    }
}

#[test]
fn what_the_source_of_random_bytes_answers() {
    let bytes = [8, 7, 6, 5, 4, 3, 2, 1];
    let value = OwnedValue::Integer(i64::from_ne_bytes(bytes));
    assert_eq!(random_value(Ok(bytes)), Ok(value));
    assert_eq!(random_value(Err(getrandom::Error::UNSUPPORTED)), Err(RandomUnavailable));
    assert_eq!(drawn_integer(Ok(OwnedValue::Integer(-5))), Some(-5));
    assert_eq!(drawn_integer(Ok(OwnedValue::Null)), None);
    assert_eq!(drawn_integer(Err(RandomUnavailable)), None);
    assert!(drawn_integer(exec_random()).is_some());
}

#[test]
fn random_integers_use_all_bytes() {
    assert_eq!(random_integer([0; 8]), OwnedValue::Integer(0));
    assert_eq!(random_integer([255; 8]), OwnedValue::Integer(-1));
    let bytes = [1, 2, 3, 4, 5, 6, 7, 8];
    assert_eq!(
        random_integer(bytes),
        OwnedValue::Integer(i64::from_ne_bytes(bytes))
    );
    let mut different = false;
    let first = exec_random().unwrap();
    for _ in 0..4 {
        if exec_random().unwrap() != first {
            different = true;
        }
    }
    assert!(different);
}
