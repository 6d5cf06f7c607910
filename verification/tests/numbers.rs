use formula::calculator::{apply, negate, CalculateOption};
use formula::number;
use formula::semantics::Binary;

fn samples() -> Vec<f64> {
    vec![
        0.0,
        -0.0,
        1.0,
        -1.0,
        2.0,
        3.0,
        0.1,
        0.2,
        0.3,
        -0.7,
        1.5,
        1e-320,
        -1e-320,
        5e-324,
        2.2250738585072014e-308,
        1e300,
        -1e300,
        1.7976931348623157e308,
        9007199254740992.0,
        9007199254740993.0,
        123456.789,
        1.0 / 3.0,
        f64::INFINITY,
        f64::NEG_INFINITY,
        f64::NAN,
    ]
}

fn same(bits: u64, expected: f64) -> bool {
    let got = f64::from_bits(bits);
    if expected.is_nan() {
        got.is_nan()
    } else {
        bits == expected.to_bits()
    }
}

fn arithmetic(kind: Binary, a: f64, b: f64) -> u64 {
    match apply(kind, CalculateOption::Num(a.to_bits()), CalculateOption::Num(b.to_bits())) {
        CalculateOption::Num(bits) => bits,
        other => panic!("no number: {:?}", other),
    }
}

fn comparison(kind: Binary, a: f64, b: f64) -> bool {
    match apply(kind, CalculateOption::Num(a.to_bits()), CalculateOption::Num(b.to_bits())) {
        CalculateOption::Bool(b) => b,
        other => panic!("no truth value: {:?}", other),
    }
}

#[test]
fn arithmetic_agrees_with_the_machine() {
    for a in samples() {
        for b in samples() {
            assert!(same(arithmetic(Binary::Plus, a, b), a + b), "{} + {}", a, b);
            assert!(same(arithmetic(Binary::Minus, a, b), a - b), "{} - {}", a, b);
            assert!(same(arithmetic(Binary::Multiply, a, b), a * b), "{} * {}", a, b);
            assert!(same(arithmetic(Binary::Divide, a, b), a / b), "{} / {}", a, b);
        }
    }
}

#[test]
fn sum_is_exact_on_small_integers() {
    assert_eq!(arithmetic(Binary::Plus, 1.0, 2.0), 3.0f64.to_bits());
    assert_eq!(arithmetic(Binary::Minus, 1.0, 2.0), (-1.0f64).to_bits());
    assert_eq!(arithmetic(Binary::Multiply, 3.0, 2.0), 6.0f64.to_bits());
    assert_eq!(arithmetic(Binary::Divide, 3.0, 2.0), 1.5f64.to_bits());
}

#[test]
fn order_agrees_with_the_machine() {
    for a in samples() {
        for b in samples() {
            assert_eq!(number::lt(a.to_bits(), b.to_bits()), a < b, "{} < {}", a, b);
            assert_eq!(number::le(a.to_bits(), b.to_bits()), a <= b, "{} <= {}", a, b);
            assert_eq!(number::eq(a.to_bits(), b.to_bits()), a == b, "{} == {}", a, b);
            assert_eq!(comparison(Binary::Less, a, b), a < b);
            assert_eq!(comparison(Binary::LessEqual, a, b), a <= b);
            assert_eq!(comparison(Binary::Great, a, b), a > b);
            assert_eq!(comparison(Binary::GreatEqual, a, b), a >= b);
            assert_eq!(comparison(Binary::Equal, a, b), a == b);
        }
        assert_eq!(number::zero(a.to_bits()), a == 0.0, "{}", a);
        assert_eq!(number::nan(a.to_bits()), a.is_nan(), "{}", a);
    }
}

#[test]
fn decimal_texts_are_read_as_the_machine_reads_them() {
    let texts = [
        "0", "1", "2", "10", "0.1", "0.2", "0.3", "1.1", "2.5", "100.001", "3.14159", "1234567890",
        "0.000001", "99999999999999999999", "4.35", "0.615", "2.675", "1.005", "8.41",
        "9007199254740993", "179769313486231580793", "0.1000000000000000055511151231257827",
    ];
    for text in texts {
        let expected: f64 = text.parse().unwrap();
        assert_eq!(number::parse_decimal(text), Some(expected.to_bits()), "{}", text);
    }
    assert_eq!(number::parse_decimal("1.2.3"), None);
    assert_eq!(number::parse_decimal(""), None);
    assert_eq!(number::parse_decimal("."), None);
}

#[test]
fn results_are_equal_as_numbers_and_truth_values_only() {
    let num = |x: f64| CalculateOption::Num(x.to_bits());
    assert!(num(3.0).eq(&num(3.0)));
    assert!(!num(3.0).eq(&num(4.0)));
    assert!(num(0.0).eq(&num(-0.0)));
    assert!(!num(f64::NAN).eq(&num(f64::NAN)));
    assert!(CalculateOption::Bool(true).eq(&CalculateOption::Bool(true)));
    assert!(!CalculateOption::Bool(true).eq(&CalculateOption::Bool(false)));
    assert!(!CalculateOption::Bool(true).eq(&num(1.0)));
    assert!(!CalculateOption::Func.eq(&CalculateOption::Func));
    assert!(!CalculateOption::NoValue.eq(&CalculateOption::NoValue));
    let fault = CalculateOption::Error("x".to_string());
    assert!(!fault.eq(&CalculateOption::Error("x".to_string())));
    assert!(num(3.0) == num(3.0));
    assert!(num(3.0) != num(4.0));
}

#[test]
fn faults_of_operands_come_first() {
    let fault = |text: &str| CalculateOption::Error(text.to_string());
    let text_of = |v: CalculateOption| match v {
        CalculateOption::Error(text) => text,
        other => panic!("no fault: {:?}", other),
    };
    assert_eq!(text_of(apply(Binary::Plus, fault("left"), fault("right"))), "left");
    assert_eq!(text_of(apply(Binary::And, CalculateOption::Bool(true), fault("right"))), "right");
    assert_eq!(text_of(apply(Binary::Or, fault("left"), CalculateOption::Func)), "left");
    assert_eq!(
        text_of(apply(Binary::Minus, CalculateOption::Func, CalculateOption::Num(0))),
        "wrong kind of operand for -"
    );
    assert_eq!(
        text_of(apply(Binary::Or, CalculateOption::NoValue, CalculateOption::Bool(true))),
        "wrong kind of operand for ||"
    );
    assert_eq!(text_of(negate(fault("inner"))), "inner");
    assert_eq!(text_of(negate(CalculateOption::NoValue)), "wrong kind of operand for !");
    assert!(matches!(
        negate(CalculateOption::Num((-0.0f64).to_bits())),
        CalculateOption::Bool(true)
    ));
}
