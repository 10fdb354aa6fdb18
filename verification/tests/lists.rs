use grass::builtin::{
    append, index, is_bracketed, join, length, list_separator, lookup_builtin, nth, register,
    set_nth, Builtin,
};
use grass::common::Brackets;
use grass::error::ErrorKind;
use grass::number::Number;
use grass::units::Unit;
use grass::value::{ListSeparator, QuoteKind, Value};

fn num(n: i64) -> Value {
    Value::Dimension(Number::from_integer(n), Unit::NoUnit)
}

fn idents(names: &[&str]) -> Value {
    Value::List(
        names
            .iter()
            .map(|n| Value::Ident(String::from(*n), QuoteKind::Unquoted))
            .collect(),
        ListSeparator::Space,
        Brackets::Unbracketed,
    )
}

fn auto() -> Value {
    Value::Ident(String::from("auto"), QuoteKind::Unquoted)
}

#[test]
fn length_of_lists_maps_and_scalars() {
    assert_eq!(length(&idents(&["a", "b", "c"])).unwrap().to_css_string(), "3");
    assert_eq!(length(&num(5)).unwrap().to_css_string(), "1");
    let m = Value::SassMap(vec![(num(1), num(2)), (num(3), num(4))]);
    assert_eq!(length(&m).unwrap().to_css_string(), "2");
}

#[test]
fn nth_positive_and_negative_mirror() {
    let l = idents(&["a", "b", "c"]);
    // for a positive index i, the same item answers to i - length - 1
    assert_eq!(nth(&l, &num(2)).unwrap().to_css_string(), "b");
    assert_eq!(nth(&l, &num(2 - 3 - 1)).unwrap().to_css_string(), "b");
    assert_eq!(nth(&l, &num(1)).unwrap().to_css_string(), "a");
    assert_eq!(nth(&l, &num(-3)).unwrap().to_css_string(), "a");
}

#[test]
fn nth_rejects_zero_and_out_of_range() {
    let l = idents(&["a", "b"]);
    let e0 = nth(&l, &num(0)).unwrap_err();
    assert_eq!(e0.kind, ErrorKind::Index);
    assert_eq!(e0.message, "$n: List index may not be 0.");
    let e3 = nth(&l, &num(3)).unwrap_err();
    assert_eq!(e3.message, "$n: Invalid index 3 for a list with 2 elements.");
    assert_eq!(nth(&l, &num(3)).unwrap_err().kind, ErrorKind::Index);
    assert_eq!(nth(&l, &num(-3)).unwrap_err().kind, ErrorKind::Index);
    let half = Value::Dimension(Number { numer: 3, denom: 2 }, Unit::NoUnit);
    assert_eq!(nth(&l, &half).unwrap_err().kind, ErrorKind::Type);
    assert_eq!(nth(&l, &Value::True).unwrap_err().kind, ErrorKind::Type);
}

#[test]
fn nth_on_a_map_gives_the_pair() {
    let m = Value::SassMap(vec![(num(1), num(2))]);
    assert_eq!(nth(&m, &num(1)).unwrap().to_css_string(), "1 2");
}

#[test]
fn append_grows_by_one() {
    let l = idents(&["a", "b"]);
    let grown = append(&l, num(9), &auto()).unwrap();
    assert_eq!(length(&grown).unwrap().to_css_string(), "3");
    assert_eq!(grown.to_css_string(), "a b 9");
    // a scalar coerces to a one-item list first
    let from_scalar = append(&num(1), num(2), &auto()).unwrap();
    assert_eq!(length(&from_scalar).unwrap().to_css_string(), "2");
}

#[test]
fn append_separator_argument() {
    let l = idents(&["a", "b"]);
    let commas = append(
        &l,
        num(9),
        &Value::Ident(String::from("comma"), QuoteKind::Unquoted),
    )
    .unwrap();
    assert_eq!(commas.to_css_string(), "a, b, 9");
    let bad = append(&l, num(9), &Value::Ident(String::from("x"), QuoteKind::Unquoted));
    assert_eq!(bad.unwrap_err().kind, ErrorKind::Type);
    let not_a_string = append(&l, num(9), &num(1));
    assert_eq!(not_a_string.unwrap_err().kind, ErrorKind::Type);
}

#[test]
fn join_with_an_empty_list_keeps_the_items() {
    let l = idents(&["a", "b"]);
    let empty = Value::List(vec![], ListSeparator::Space, Brackets::Unbracketed);
    let j = join(&l, &empty, &auto(), &auto()).unwrap();
    assert_eq!(j.to_css_string(), "a b");
    let j2 = join(&empty, &l, &auto(), &auto()).unwrap();
    assert_eq!(j2.to_css_string(), "a b");
}

#[test]
fn join_concatenates_in_order() {
    let j = join(&idents(&["a"]), &idents(&["b"]), &auto(), &auto()).unwrap();
    assert_eq!(j.to_css_string(), "a b");
}

#[test]
fn set_nth_replaces_one_item() {
    let l = idents(&["a", "b", "c"]);
    let r = set_nth(&l, &num(2), num(7)).unwrap();
    assert_eq!(r.to_css_string(), "a 7 c");
    let r2 = set_nth(&idents(&["a", "b", "c"]), &num(-1), num(7)).unwrap();
    assert_eq!(r2.to_css_string(), "a b 7");
}

#[test]
fn index_finds_the_first_match_and_inverts_nth() {
    let l = idents(&["a", "b", "c"]);
    // index(X, nth(X, i)) == i for distinct items
    let item = nth(&l, &num(2)).unwrap();
    assert_eq!(index(&l, &item).unwrap().to_css_string(), "2");
    assert_eq!(index(&l, &num(9)).unwrap().to_css_string(), "null");
}

#[test]
fn bracket_and_separator_reports() {
    let b = Value::List(vec![num(1)], ListSeparator::Space, Brackets::Bracketed);
    assert_eq!(is_bracketed(&b).to_css_string(), "true");
    assert_eq!(is_bracketed(&num(1)).to_css_string(), "false");
    let c = Value::List(vec![num(1)], ListSeparator::Comma, Brackets::Unbracketed);
    assert_eq!(list_separator(&c).to_css_string(), "comma");
    assert_eq!(list_separator(&num(1)).to_css_string(), "space");
}

#[test]
fn registry_holds_the_list_functions() {
    let mut f: Vec<(String, Builtin)> = Vec::new();
    register(&mut f);
    assert_eq!(f.len(), 8);
    assert_eq!(lookup_builtin(&f, "length"), Some(Builtin::Length));
    assert_eq!(lookup_builtin(&f, "nth"), Some(Builtin::Nth));
    assert_eq!(lookup_builtin(&f, "set-nth"), Some(Builtin::SetNth));
    assert_eq!(lookup_builtin(&f, "append"), Some(Builtin::Append));
    assert_eq!(lookup_builtin(&f, "join"), Some(Builtin::Join));
    assert_eq!(lookup_builtin(&f, "is-bracketed"), Some(Builtin::IsBracketed));
    assert_eq!(lookup_builtin(&f, "index"), Some(Builtin::Index));
    assert_eq!(lookup_builtin(&f, "list-separator"), Some(Builtin::ListSeparatorFn));
    assert_eq!(lookup_builtin(&f, "missing"), None);
}
