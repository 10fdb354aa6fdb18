use grass::common::{Brackets, Op};
use grass::error::ErrorKind;
use grass::eval::apply_op;
use grass::number::Number;
use grass::units::Unit;
use grass::value::{ListSeparator, QuoteKind, Value};

fn px(n: i64) -> Value {
    Value::Dimension(Number::from_integer(n), Unit::Px)
}

fn num(n: i64) -> Value {
    Value::Dimension(Number::from_integer(n), Unit::NoUnit)
}

#[test]
fn number_to_string_whole_and_fractional() {
    assert_eq!(
        grass::serialize::number_to_string(&Number { numer: 5, denom: 2 }),
        "2.5"
    );
    assert_eq!(grass::serialize::number_to_string(&Number { numer: 20, denom: 1 }), "20");
    assert_eq!(
        grass::serialize::number_to_string(&Number { numer: -5, denom: 2 }),
        "-2.5"
    );
    assert_eq!(
        grass::serialize::number_to_string(&Number { numer: 1, denom: 3 }),
        "0.3333333333"
    );
}

#[test]
fn number_predicates() {
    let half = Number { numer: 1, denom: 2 };
    assert!(half.is_decimal());
    assert!(!Number::from_integer(4).is_decimal());
    assert_eq!(Number { numer: 6, denom: 3 }.to_integer(), 2);
    assert!(Number { numer: 1, denom: 2 }.same_value_as(&Number { numer: 2, denom: 4 }));
    assert!(!Number { numer: 1, denom: 2 }.same_value_as(&Number { numer: 2, denom: 3 }));
}

#[test]
fn dimension_plus_zero_is_identity() {
    let d = px(7);
    let zero = Value::Dimension(Number::zero(), Unit::NoUnit);
    let r = apply_op(d, Op::Plus, zero).unwrap();
    match r {
        Value::Dimension(n, u) => {
            assert_eq!(n.numer, 7);
            assert_eq!(n.denom, 1);
            assert_eq!(u, Unit::Px);
        }
        _ => panic!("expected a dimension"),
    }
}

#[test]
fn dimension_times_one_is_identity() {
    let d = px(9);
    let one = Value::Dimension(Number::one(), Unit::NoUnit);
    let r = apply_op(d, Op::Mul, one).unwrap();
    match r {
        Value::Dimension(n, u) => {
            assert_eq!(n.numer, 9);
            assert_eq!(n.denom, 1);
            assert_eq!(u, Unit::Px);
        }
        _ => panic!("expected a dimension"),
    }
}

#[test]
fn unit_propagation_px_plus_px() {
    let r = apply_op(px(2), Op::Plus, px(3)).unwrap();
    assert_eq!(r.to_css_string(), "5px");
}

#[test]
fn unit_error_px_plus_percent() {
    let pct = Value::Dimension(Number::from_integer(10), Unit::Percent);
    let e = apply_op(px(2), Op::Plus, pct).unwrap_err();
    assert_eq!(e.kind, ErrorKind::Unit);
}

#[test]
fn string_concat_keeps_left_quote() {
    let a = Value::Ident(String::from("foo"), QuoteKind::Double);
    let b = Value::Ident(String::from("bar"), QuoteKind::Unquoted);
    let r = apply_op(a, Op::Plus, b).unwrap();
    match r {
        Value::Ident(s, q) => {
            assert_eq!(s, "foobar");
            assert_eq!(q, QuoteKind::Double);
        }
        _ => panic!("expected a string"),
    }
}

#[test]
fn division_by_zero_is_an_error() {
    let e = apply_op(num(1), Op::Div, num(0)).unwrap_err();
    assert_eq!(e.kind, ErrorKind::Range);
}

#[test]
fn type_of_labels() {
    assert_eq!(num(1).type_of(), "number");
    assert_eq!(Value::True.type_of(), "bool");
    assert_eq!(Value::Null.type_of(), "null");
    assert_eq!(Value::Ident(String::from("x"), QuoteKind::Unquoted).type_of(), "string");
    assert_eq!(
        Value::List(vec![], ListSeparator::Space, Brackets::Unbracketed).type_of(),
        "list"
    );
    assert_eq!(Value::SassMap(vec![]).type_of(), "map");
    assert_eq!(Value::ArgList(vec![]).type_of(), "arglist");
}

#[test]
fn eval_is_idempotent_on_ground_values() {
    let v = Value::List(vec![num(1), Value::True], ListSeparator::Space, Brackets::Unbracketed);
    let once = v.eval().unwrap();
    let again = once.clone_value().eval().unwrap();
    assert!(once.equals(&again));
}

#[test]
fn eval_reduces_operation_nodes() {
    let tree = Value::BinaryOp(Box::new(px(1)), Op::Plus, Box::new(px(2)));
    assert_eq!(tree.eval().unwrap().to_css_string(), "3px");
}

#[test]
fn is_true_follows_falsey_rules() {
    assert!(!Value::Null.is_true());
    assert!(!Value::False.is_true());
    assert!(Value::True.is_true());
    assert!(num(0).is_true());
    assert!(Value::Ident(String::new(), QuoteKind::Unquoted).is_true());
}

#[test]
fn unquote_strips_quotes() {
    let v = Value::Ident(String::from("hi"), QuoteKind::Double);
    match v.unquote() {
        Value::Ident(s, q) => {
            assert_eq!(s, "hi");
            assert_eq!(q, QuoteKind::Unquoted);
        }
        _ => panic!("expected a string"),
    }
}

#[test]
fn unquote_leaves_other_values_alone() {
    // a list holding a quoted string comes back unchanged
    let l = Value::List(
        vec![Value::Ident(String::from("hi"), QuoteKind::Double)],
        ListSeparator::Space,
        Brackets::Unbracketed,
    );
    let r = l.unquote();
    assert!(r.equals(&Value::List(
        vec![Value::Ident(String::from("hi"), QuoteKind::Double)],
        ListSeparator::Space,
        Brackets::Unbracketed,
    )));
    let n = num(3).unquote();
    assert!(n.equals(&num(3)));
}

#[test]
fn css_text_of_values() {
    assert_eq!(Value::Important.to_css_string(), "!important");
    assert_eq!(Value::Null.to_css_string(), "null");
    let l = Value::List(vec![num(1), num(2)], ListSeparator::Comma, Brackets::Unbracketed);
    assert_eq!(l.to_css_string(), "1, 2");
    let b = Value::List(vec![num(1), num(2)], ListSeparator::Space, Brackets::Bracketed);
    assert_eq!(b.to_css_string(), "[1 2]");
    let c = grass::color::Color::new(1, 2, 3, Number::one());
    assert_eq!(Value::Color(c).to_css_string(), "#010203");
}

#[test]
fn separator_and_quote_names() {
    assert_eq!(ListSeparator::Space.as_str(), " ");
    assert_eq!(ListSeparator::Comma.as_str(), ", ");
    assert_eq!(ListSeparator::Space.name(), "space");
    assert_eq!(ListSeparator::Comma.name(), "comma");
    assert_eq!(QuoteKind::Single.as_str(), "'");
    assert_eq!(QuoteKind::Double.as_str(), "\"");
    assert_eq!(QuoteKind::Unquoted.as_str(), "");
}
