use std::rc::Rc;
use vdbe::arith::{add_values, divide_values, Computed, Number};
use vdbe::double::{integer_bits, order_bits, Double};
use vdbe::print::debug_string;
use vdbe::record::{make_owned_record, make_record, row_ready};
use vdbe::relation::{rank, Ranking};
use vdbe::state::ProgramState;
use vdbe::text::Order;
use vdbe::value::{to_value, AggContext, OwnedRecord, OwnedValue, Value};

fn double(x: f64) -> Double {
    Double::new(x.to_bits(), format!("{}", x), format!("{:?}", x))
}

fn float(x: f64) -> OwnedValue {
    OwnedValue::Float(double(x))
}

fn text(s: &str) -> OwnedValue {
    OwnedValue::Text(Rc::new(String::from(s)))
}

fn blob(bytes: &[u8]) -> OwnedValue {
    OwnedValue::Blob(Rc::new(bytes.to_vec()))
}

const SAMPLES: [f64; 16] = [
    0.0,
    -0.0,
    1.0,
    -1.0,
    0.5,
    -2.75,
    1e300,
    -1e300,
    5e-324,
    -5e-324,
    2.2250738585072014e-308,
    9007199254740993.0,
    9223372036854775808.0,
    -9223372036854775808.0,
    f64::INFINITY,
    f64::NEG_INFINITY,
];

#[test]
fn doubles_are_ordered_by_their_bits() {
    for a in SAMPLES {
        for b in SAMPLES {
            let expected = if a < b {
                Order::Less
            } else if a == b {
                Order::Equal
            } else {
                Order::Greater
            };
            assert_eq!(order_bits(a.to_bits(), b.to_bits()), Some(expected));
            assert_eq!(double(a) == double(b), a == b);
        }
        assert_eq!(order_bits(a.to_bits(), f64::NAN.to_bits()), None);
        assert_eq!(order_bits(f64::NAN.to_bits(), a.to_bits()), None);
    }
    assert!(double(f64::NAN) != double(f64::NAN));
}

#[test]
fn integers_as_doubles() {
    let mut samples: Vec<i64> = vec![
        0,
        1,
        -1,
        2,
        3,
        9007199254740992,
        9007199254740993,
        9007199254740994,
        9007199254740995,
        -9007199254740993,
        i64::MAX,
        i64::MAX - 511,
        i64::MAX - 512,
        i64::MAX - 513,
        i64::MIN,
        i64::MIN + 1,
        i64::MIN + 1025,
    ];
    let mut x: i64 = 88172645463325252;
    for _ in 0..2000 {
        x ^= x << 13;
        x ^= x >> 7;
        x ^= x << 17;
        samples.push(x);
        samples.push(x >> 9);
        samples.push(x >> 23);
    }
    for i in samples {
        assert_eq!(integer_bits(i), (i as f64).to_bits());
    }
}

#[test]
fn the_doubles_that_are_built_in() {
    for (d, x) in [
        (Double::zero(), 0.0),
        (Double::infinity(), f64::INFINITY),
        (Double::minus_infinity(), f64::NEG_INFINITY),
    ] {
        assert_eq!(d.bits, x.to_bits());
        assert_eq!(d.plain, format!("{}", x));
        assert_eq!(d.marked, format!("{:?}", x));
    }
}

#[test]
fn values_as_they_are_shown() {
    assert_eq!(OwnedValue::Null.to_text(), "NULL");
    assert_eq!(OwnedValue::Integer(-7).to_text(), "-7");
    assert_eq!(OwnedValue::Integer(i64::MIN).to_text(), "-9223372036854775808");
    assert_eq!(float(2.0).to_text(), "2.0");
    assert_eq!(text("it's").to_text(), "it's");
    assert_eq!(blob(&[1, 20, 255]).to_text(), "[1, 20, 255]");
    let agg = OwnedValue::Agg(Box::new(AggContext::Count(OwnedValue::Integer(3))));
    assert_eq!(agg.to_text(), "3");
}

#[test]
fn registers_in_the_form_that_shows_their_kind() {
    let state = ProgramState::new(2);
    assert_eq!(state.column_count(), 2);
    assert_eq!(state.column(1), Some("Null".to_string()));
    assert_eq!(debug_string(&OwnedValue::Integer(-1)), "Integer(-1)");
    assert_eq!(debug_string(&float(0.5)), "Float(0.5)");
    assert_eq!(debug_string(&text("a\"b\n")), "Text(\"a\\\"b\\n\")");
    assert_eq!(debug_string(&blob(&[7])), "Blob([7])");
    let record = OwnedRecord::new(vec![OwnedValue::Null, OwnedValue::Integer(1)]);
    assert_eq!(
        debug_string(&OwnedValue::Record(record)),
        "Record(OwnedRecord { values: [Null, Integer(1)] })"
    );
    let avg = AggContext::Avg(float(1.0), OwnedValue::Integer(2));
    assert_eq!(
        debug_string(&OwnedValue::Agg(Box::new(avg))),
        "Agg(Avg(Float(1.0), Integer(2)))"
    );
}

#[test]
fn equal_values() {
    assert_eq!(text("a"), text("a"));
    assert_ne!(text("a"), text("b"));
    assert_ne!(OwnedValue::Integer(1), float(1.0));
    assert_eq!(float(0.0), float(-0.0));
    assert_ne!(float(f64::NAN), float(f64::NAN));
    assert_eq!(blob(&[1, 2]), blob(&[1, 2]));
    assert_ne!(blob(&[1, 2]), blob(&[1]));
    let a = OwnedRecord::new(vec![OwnedValue::Integer(1), text("x")]);
    let b = OwnedRecord::new(vec![OwnedValue::Integer(1), text("x")]);
    let c = OwnedRecord::new(vec![OwnedValue::Integer(1)]);
    assert_eq!(a, b);
    assert_ne!(a, c);
}

#[test]
fn the_order_of_values() {
    let less = Ranking::Ordered(Order::Less);
    let equal = Ranking::Ordered(Order::Equal);
    let greater = Ranking::Ordered(Order::Greater);
    assert_eq!(rank(&OwnedValue::Integer(1), &OwnedValue::Integer(2)), less);
    assert_eq!(rank(&OwnedValue::Integer(2), &float(2.0)), equal);
    assert_eq!(rank(&float(2.5), &OwnedValue::Integer(2)), greater);
    assert_eq!(rank(&OwnedValue::Integer(i64::MAX), &float(9223372036854775808.0)), equal);
    assert_eq!(rank(&OwnedValue::Integer(9), &text("0")), less);
    assert_eq!(rank(&text("abc"), &text("abd")), less);
    assert_eq!(rank(&text("ab"), &text("abc")), less);
    assert_eq!(rank(&text("é"), &text("z")), greater);
    assert_eq!(rank(&text("z"), &blob(&[0])), less);
    assert_eq!(rank(&blob(&[1, 0]), &blob(&[1])), greater);
    assert_eq!(rank(&float(f64::NAN), &float(1.0)), Ranking::Unordered);
    assert_eq!(rank(&OwnedValue::Integer(1), &float(f64::NAN)), Ranking::Unordered);
    assert_eq!(rank(&OwnedValue::Null, &OwnedValue::Integer(1)), Ranking::Undefined);
}

#[test]
fn the_order_seen_from_the_other_side() {
    let values = [
        OwnedValue::Null,
        OwnedValue::Integer(-3),
        OwnedValue::Integer(4),
        float(-2.5),
        float(4.0),
        float(f64::NAN),
        text(""),
        text("b"),
        text("ba"),
        blob(&[]),
        blob(&[7, 8]),
    ];
    for a in &values {
        for b in &values {
            let reversed = match rank(a, b) {
                Ranking::Ordered(Order::Less) => Ranking::Ordered(Order::Greater),
                Ranking::Ordered(Order::Greater) => Ranking::Ordered(Order::Less),
                other => other,
            };
            assert_eq!(rank(b, a), reversed);
        }
    }
}

#[test]
fn sums_of_values() {
    match add_values(&OwnedValue::Integer(2), &OwnedValue::Integer(3)) {
        Computed::Value(v) => assert_eq!(v, OwnedValue::Integer(5)),
        _ => panic!("integers"),
    }
    match add_values(&OwnedValue::Integer(i64::MAX), &OwnedValue::Integer(1)) {
        Computed::Undefined => {}
        _ => panic!("overflow"),
    }
    match add_values(&float(1.5), &OwnedValue::Integer(2)) {
        Computed::Host(Number::Float(a), Number::Integer(b)) => {
            assert_eq!(a, double(1.5));
            assert_eq!(b, 2);
        }
        _ => panic!("a float"),
    }
    match add_values(&text("a"), &OwnedValue::Integer(-2)) {
        Computed::Value(v) => assert_eq!(v, text("a-2")),
        _ => panic!("text"),
    }
    match add_values(&OwnedValue::Null, &text("b")) {
        Computed::Value(v) => assert_eq!(v, text("b")),
        _ => panic!("NULL"),
    }
    match add_values(&blob(&[1]), &OwnedValue::Integer(1)) {
        Computed::Value(v) => assert_eq!(v, float(0.0)),
        _ => panic!("a byte string"),
    }
}

#[test]
fn quotients_of_values() {
    match divide_values(&OwnedValue::Integer(-7), &OwnedValue::Integer(2)) {
        Computed::Value(v) => assert_eq!(v, OwnedValue::Integer(-3)),
        _ => panic!("integers"),
    }
    match divide_values(&OwnedValue::Integer(1), &OwnedValue::Integer(0)) {
        Computed::Undefined => {}
        _ => panic!("division by zero"),
    }
    match divide_values(&OwnedValue::Integer(i64::MIN), &OwnedValue::Integer(-1)) {
        Computed::Undefined => {}
        _ => panic!("overflow"),
    }
    match divide_values(&float(3.0), &OwnedValue::Integer(2)) {
        Computed::Host(Number::Float(a), Number::Integer(b)) => {
            assert_eq!(a, double(3.0));
            assert_eq!(b, 2);
        }
        _ => panic!("a float"),
    }
    match divide_values(&OwnedValue::Null, &OwnedValue::Integer(2)) {
        Computed::Value(v) => assert_eq!(v, float(0.0)),
        _ => panic!("NULL"),
    }
}

#[test]
fn rows_from_registers() {
    let registers = vec![
        OwnedValue::Null,
        OwnedValue::Integer(1),
        text("x"),
        OwnedValue::Record(OwnedRecord::new(vec![])),
    ];
    assert!(row_ready(&registers, 1, 2));
    assert!(!row_ready(&registers, 1, 3));
    assert!(row_ready(&registers, 9, 3));
    let row = make_record(&registers, &1, &2);
    assert_eq!(row.values.len(), 2);
    match (&row.values[0], &row.values[1]) {
        (Value::Integer(i), Value::Text(t)) => {
            assert_eq!(*i, 1);
            assert_eq!(t.as_str(), "x");
        }
        _ => panic!("another row"),
    }
    let owned = make_owned_record(&registers, &2, &9);
    assert_eq!(owned.values.len(), 2);
    assert_eq!(owned.values[0], text("x"));
    assert_eq!(make_owned_record(&registers, &4, &1).values.len(), 0);
}

#[test]
fn aggregates_hand_out_their_results() {
    let sum = OwnedValue::Agg(Box::new(AggContext::Sum(OwnedValue::Null)));
    match to_value(&sum) {
        Some(Value::Float(d)) => assert_eq!(d, double(0.0)),
        _ => panic!("an empty sum"),
    }
    let max = OwnedValue::Agg(Box::new(AggContext::Max(OwnedValue::Integer(4))));
    match to_value(&max) {
        Some(Value::Integer(4)) => {}
        _ => panic!("a maximum"),
    }
    let concat = OwnedValue::Agg(Box::new(AggContext::GroupConcat(text("a,b"))));
    match to_value(&concat) {
        Some(Value::Text(t)) => assert_eq!(t.as_str(), "a,b"),
        _ => panic!("a text"),
    }
    assert!(to_value(&OwnedValue::Record(OwnedRecord::new(vec![]))).is_none());
}
