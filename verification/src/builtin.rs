//! The built-in list functions: length, nth, set-nth, append, join,
//! index, is-bracketed and list-separator, and the registry that maps
//! their names to them.

use vstd::prelude::*;
use crate::common::Brackets;
use crate::error::{ErrorKind, SassError};
use crate::number::Number;
use crate::serialize::{number_to_string, spec_number_string, spec_udigits, spec_value_string};
use crate::strutil::str_eq;
use crate::value::{
    pair_value_model, seq_value_model, val_eq, value_model, ListSeparator, QuoteKind, Value,
    ValueModel,
};

verus! {

/// A value seen as a list: a list gives its items, a map its entries as
/// two-element space-separated lists, an argument list its items, and
/// any other value a one-element list holding it.
pub open spec fn spec_coerce_list(m: ValueModel) -> Seq<ValueModel> {
    match m {
        ValueModel::List(items, _, _) => items,
        ValueModel::SassMap(pairs) => Seq::new(
            pairs.len(),
            |i: int|
                ValueModel::List(
                    seq![pairs[i].0, pairs[i].1],
                    ListSeparator::Space,
                    Brackets::Unbracketed,
                ),
        ),
        ValueModel::ArgList(items) => items,
        other => seq![other],
    }
}

/// The separator a value carries; anything that is not a list counts as
/// space-separated.
pub open spec fn spec_sep_of(m: ValueModel) -> ListSeparator {
    match m {
        ValueModel::List(_, sep, _) => sep,
        ValueModel::SassMap(_) => ListSeparator::Comma,
        ValueModel::ArgList(_) => ListSeparator::Comma,
        _ => ListSeparator::Space,
    }
}

/// The brackets a value carries; anything that is not a list is bare.
pub open spec fn spec_brackets_of(m: ValueModel) -> Brackets {
    match m {
        ValueModel::List(_, _, br) => br,
        _ => Brackets::Unbracketed,
    }
}

/// What the length function reports: the length of the value seen as a
/// list.
pub open spec fn spec_length(m: ValueModel) -> int {
    spec_coerce_list(m).len() as int
}

/// The position a one-based index names, counting from the end when
/// negative, or the error that rejects it. The checks come in the fixed
/// order: a zero index, then one out of range, then one that is not a
/// whole number.
pub open spec fn spec_nth_index(n: Number, len: int) -> Result<int, ErrorKind> {
    if n.denom < 1 {
        Err(ErrorKind::Type)
    } else if n.numer == 0 {
        Err(ErrorKind::Index)
    } else if (if n.numer >= 0 {
        n.numer as int
    } else {
        -n.numer as int
    }) > len * n.denom {
        Err(ErrorKind::Index)
    } else if n.numer % n.denom != 0 {
        Err(ErrorKind::Type)
    } else if n.numer > 0 {
        Ok(n.numer as int / n.denom as int - 1)
    } else {
        Ok(len + n.numer as int / n.denom as int)
    }
}

/// The exact diagnostic a rejected one-based index carries.
pub open spec fn spec_nth_index_msg(n: Number, len: int) -> Seq<char> {
    if n.denom < 1 {
        "$n: the index is malformed"@
    } else if n.numer == 0 {
        "$n: List index may not be 0."@
    } else if (if n.numer >= 0 {
        n.numer as int
    } else {
        -n.numer as int
    }) > len * n.denom {
        "$n: Invalid index "@ + spec_number_string(n) + " for a list with "@ + spec_udigits(
            len as nat,
        ) + " elements."@
    } else {
        "$n: "@ + spec_number_string(n) + " is not an int."@
    }
}

/// The list function `length`.
pub fn length(v: &Value) -> (res: Result<Value, SassError>)
    ensures
        spec_length(v@) <= i64::MAX ==> (res matches Ok(out) && out@ == ValueModel::Dimension(
            Number { numer: spec_length(v@) as i64, denom: 1 },
            crate::units::Unit::NoUnit,
        )),
        spec_length(v@) > i64::MAX ==> (res matches Err(e) && e.kind == ErrorKind::Range),
{
    broadcast use crate::value::lemma_seq_value_model_len, crate::value::lemma_pair_value_model_len;

    let n: usize = match v {
        Value::List(items, _, _) => {
            proof {
                assert(v@ is List);
                assert(spec_coerce_list(v@) == seq_value_model(items@));
                assert(spec_coerce_list(v@).len() == items@.len());
            }
            items.len()
        },
        Value::SassMap(pairs) => {
            proof {
                assert(spec_coerce_list(v@).len() == pair_value_model(pairs@).len());
            }
            pairs.len()
        },
        Value::ArgList(items) => {
            proof {
                assert(spec_coerce_list(v@) == seq_value_model(items@));
            }
            items.len()
        },
        _ => {
            proof {
                crate::value::lemma_value_model_variant(*v);
                assert(spec_coerce_list(v@).len() == 1);
            }
            1
        },
    };
    proof {
        assert(n == spec_length(v@));
    }
    if n as u64 > i64::MAX as u64 {
        return Err(
            SassError::new(ErrorKind::Range, String::from_str("the list is too long to measure")),
        );
    }
    Ok(Value::Dimension(Number::from_integer(n as i64), crate::units::Unit::NoUnit))
}

/// Finds the position a one-based index names in a list of the given
/// length, or reports why it is rejected.
fn resolve_index(n: &Number, len: usize) -> (res: Result<usize, SassError>)
    requires
        len <= i64::MAX,
    ensures
        match spec_nth_index(*n, len as int) {
            Ok(i) => res matches Ok(j) && j == i && 0 <= i < len,
            Err(k) => res matches Err(e) && e.kind == k && e.message@ == spec_nth_index_msg(
                *n,
                len as int,
            ),
        },
{
    if n.denom < 1 {
        return Err(
            SassError::new(ErrorKind::Type, String::from_str("$n: the index is malformed")),
        );
    }
    if n.is_zero() {
        return Err(
            SassError::new(ErrorKind::Index, String::from_str("$n: List index may not be 0.")),
        );
    }
    let mag: i128 = if n.numer >= 0 {
        n.numer as i128
    } else {
        -(n.numer as i128)
    };
    proof {
        crate::number::lemma_word_product_bounds(len as int, n.denom as int);
    }
    let bound: i128 = (len as i128) * (n.denom as i128);
    if mag > bound {
        let mut msg = String::from_str("$n: Invalid index ");
        msg.append(number_to_string(n).as_str());
        msg.append(" for a list with ");
        let mut digits: Vec<char> = Vec::new();
        crate::serialize::push_udigits(len as u64, &mut digits);
        crate::strutil::push_chars(&mut msg, &digits);
        msg.append(" elements.");
        proof {
            assert(msg@ =~= "$n: Invalid index "@ + spec_number_string(*n) + " for a list with "@
                + spec_udigits(len as nat) + " elements."@);
        }
        return Err(SassError::new(ErrorKind::Index, msg));
    }
    if n.is_decimal() {
        let mut msg = String::from_str("$n: ");
        msg.append(number_to_string(n).as_str());
        msg.append(" is not an int.");
        proof {
            assert(msg@ =~= "$n: "@ + spec_number_string(*n) + " is not an int."@);
        }
        return Err(SassError::new(ErrorKind::Type, msg));
    }
    let k: i64 = n.to_integer();
    proof {
        assert(k != 0) by (nonlinear_arith)
            requires
                k * n.denom == n.numer,
                n.numer != 0,
        ;
        if k > 0 {
            assert(k <= len) by (nonlinear_arith)
                requires
                    k * n.denom == n.numer,
                    n.denom >= 1,
                    n.numer >= 0 ==> n.numer <= len * n.denom,
                    n.numer < 0 ==> -n.numer <= len * n.denom,
                    k > 0,
            ;
        } else {
            assert(-k <= len) by (nonlinear_arith)
                requires
                    k * n.denom == n.numer,
                    n.denom >= 1,
                    n.numer >= 0 ==> n.numer <= len * n.denom,
                    n.numer < 0 ==> -n.numer <= len * n.denom,
                    k < 0,
        ;
        }
        assert(n.numer > 0 ==> k > 0) by (nonlinear_arith)
            requires
                k * n.denom == n.numer,
                n.denom >= 1,
        ;
        assert(n.numer < 0 ==> k < 0) by (nonlinear_arith)
            requires
                k * n.denom == n.numer,
                n.denom >= 1,
        ;
    }
    if k > 0 {
        Ok((k - 1) as usize)
    } else {
        Ok((len as i64 + k) as usize)
    }
}

/// The list function `nth`: the item a one-based index names; negative
/// indexes count from the end.
pub fn nth(list: &Value, n: &Value) -> (res: Result<Value, SassError>)
    ensures
        !(n@ is Dimension) ==> (res matches Err(e) && e.kind == ErrorKind::Type && e.message@
            == "$n: "@ + spec_value_string(n@) + " is not a number."@),
        n@ is Dimension && spec_coerce_list(list@).len() > i64::MAX ==> (res matches Err(e)
            && e.kind == ErrorKind::Range),
        n@ matches ValueModel::Dimension(num, _) ==> (spec_coerce_list(list@).len()
            <= i64::MAX ==> match spec_nth_index(num, spec_coerce_list(list@).len() as int) {
            Ok(i) => res matches Ok(out) && out@ == spec_coerce_list(list@)[i],
            Err(k) => res matches Err(e) && e.kind == k,
        }),
{
    broadcast use crate::value::lemma_seq_value_model_len, crate::value::lemma_seq_value_model_index, crate::value::lemma_pair_value_model_len, crate::value::lemma_pair_value_model_index;

    let num: &Number = match n {
        Value::Dimension(num, _) => num,
        _ => {
            let mut msg = String::from_str("$n: ");
            msg.append(n.to_css_string().as_str());
            msg.append(" is not a number.");
            proof {
                assert(msg@ =~= "$n: "@ + spec_value_string(n@) + " is not a number."@);
            }
            return Err(SassError::new(ErrorKind::Type, msg));
        },
    };
    let len: usize = match list {
        Value::List(items, _, _) => {
            proof {
                assert(spec_coerce_list(list@) == seq_value_model(items@));
            }
            items.len()
        },
        Value::SassMap(pairs) => {
            proof {
                assert(spec_coerce_list(list@).len() == pair_value_model(pairs@).len());
            }
            pairs.len()
        },
        Value::ArgList(items) => {
            proof {
                assert(spec_coerce_list(list@) == seq_value_model(items@));
            }
            items.len()
        },
        _ => {
            proof {
                crate::value::lemma_value_model_variant(*list);
                assert(spec_coerce_list(list@).len() == 1);
            }
            1
        },
    };
    proof {
        assert(len == spec_coerce_list(list@).len());
    }
    if len as u64 > i64::MAX as u64 {
        return Err(
            SassError::new(ErrorKind::Range, String::from_str("the list is too long to index")),
        );
    }
    let idx: usize = match resolve_index(num, len) {
        Ok(i) => i,
        Err(e) => {
            return Err(e);
        },
    };
    match list {
        Value::List(items, _, _) => Ok(items[idx].clone_value()),
        Value::SassMap(pairs) => {
            let key = pairs[idx].0.clone_value();
            let val = pairs[idx].1.clone_value();
            let mut pairvec: Vec<Value> = Vec::new();
            pairvec.push(key);
            pairvec.push(val);
            let out = Value::List(pairvec, ListSeparator::Space, Brackets::Unbracketed);
            proof {
                assert(seq_value_model(out->List_0@) =~= seq![
                    value_model(pairs@[idx as int].0),
                    value_model(pairs@[idx as int].1),
                ]);
            }
            Ok(out)
        },
        Value::ArgList(items) => Ok(items[idx].clone_value()),
        other => Ok(other.clone_value()),
    }
}

/// Materializes the list a value stands for, with its separator and
/// brackets.
pub fn coerce_to_items(list: &Value) -> (out: (Vec<Value>, ListSeparator, Brackets))
    ensures
        seq_value_model(out.0@) == spec_coerce_list(list@),
        out.1 == spec_sep_of(list@),
        out.2 == spec_brackets_of(list@),
{
    broadcast use crate::value::lemma_seq_value_model_len, crate::value::lemma_seq_value_model_index, crate::value::lemma_pair_value_model_len, crate::value::lemma_pair_value_model_index;

    match list {
        Value::List(items, sep, br) => {
            proof {
                assert(spec_coerce_list(list@) == seq_value_model(items@));
            }
            let mut out: Vec<Value> = Vec::new();
            let mut i: usize = 0;
            #[verifier::loop_isolation(false)]
            while i < items.len()
                invariant
                    i <= items@.len(),
                    out@.len() == i,
                    forall|j: int|
                        0 <= j < i ==> value_model(#[trigger] out@[j]) == value_model(items@[j]),
                decreases items@.len() - i,
            {
                out.push(items[i].clone_value());
                i = i + 1;
            }
            proof {
                assert(seq_value_model(out@) =~= spec_coerce_list(list@));
            }
            (out, *sep, *br)
        },
        Value::SassMap(pairs) => {
            let mut out: Vec<Value> = Vec::new();
            let mut i: usize = 0;
            #[verifier::loop_isolation(false)]
            while i < pairs.len()
                invariant
                    i <= pairs@.len(),
                    out@.len() == i,
                    forall|j: int|
                        0 <= j < i ==> value_model(#[trigger] out@[j]) == spec_coerce_list(
                            list@,
                        )[j],
                decreases pairs@.len() - i,
            {
                let key = pairs[i].0.clone_value();
                let val = pairs[i].1.clone_value();
                let mut pairvec: Vec<Value> = Vec::new();
                pairvec.push(key);
                pairvec.push(val);
                let entry = Value::List(pairvec, ListSeparator::Space, Brackets::Unbracketed);
                proof {
                    assert(seq_value_model(entry->List_0@) =~= seq![
                        value_model(pairs@[i as int].0),
                        value_model(pairs@[i as int].1),
                    ]);
                    assert(pair_value_model(pairs@)[i as int] == (
                        value_model(pairs@[i as int].0),
                        value_model(pairs@[i as int].1),
                    ));
                    assert(seq![
                        pair_value_model(pairs@)[i as int].0,
                        pair_value_model(pairs@)[i as int].1,
                    ] =~= seq![value_model(pairs@[i as int].0), value_model(pairs@[i as int].1)]);
                    assert(value_model(entry) == spec_coerce_list(list@)[i as int]);
                }
                out.push(entry);
                i = i + 1;
            }
            proof {
                assert(pair_value_model(pairs@).len() == pairs@.len());
                assert(spec_coerce_list(list@).len() == pair_value_model(pairs@).len());
                assert forall|j: int|
                    0 <= j < out@.len() implies seq_value_model(out@)[j] == spec_coerce_list(
                    list@,
                )[j] by {
                    assert(seq_value_model(out@)[j] == value_model(out@[j]));
                }
                assert(seq_value_model(out@) =~= spec_coerce_list(list@));
            }
            (out, ListSeparator::Comma, Brackets::Unbracketed)
        },
        Value::ArgList(items) => {
            proof {
                assert(spec_coerce_list(list@) == seq_value_model(items@));
            }
            let mut out: Vec<Value> = Vec::new();
            let mut i: usize = 0;
            #[verifier::loop_isolation(false)]
            while i < items.len()
                invariant
                    i <= items@.len(),
                    out@.len() == i,
                    forall|j: int|
                        0 <= j < i ==> value_model(#[trigger] out@[j]) == value_model(items@[j]),
                decreases items@.len() - i,
            {
                out.push(items[i].clone_value());
                i = i + 1;
            }
            proof {
                assert(seq_value_model(out@) =~= spec_coerce_list(list@));
            }
            (out, ListSeparator::Comma, Brackets::Unbracketed)
        },
        other => {
            proof {
                crate::value::lemma_value_model_variant(*other);
            }
            let mut out: Vec<Value> = Vec::new();
            out.push(other.clone_value());
            proof {
                assert(seq_value_model(out@) =~= spec_coerce_list(list@));
            }
            (out, ListSeparator::Space, Brackets::Unbracketed)
        },
    }
}

/// How a separator argument reads: `auto` keeps the list's own separator,
/// `comma` and `space` choose one, and anything else is rejected.
pub open spec fn spec_sep_arg(m: ValueModel, auto: ListSeparator) -> Result<
    ListSeparator,
    ErrorKind,
> {
    match m {
        ValueModel::Ident(s, _) => if s == "auto"@ {
            Ok(auto)
        } else if s == "comma"@ {
            Ok(ListSeparator::Comma)
        } else if s == "space"@ {
            Ok(ListSeparator::Space)
        } else {
            Err(ErrorKind::Type)
        },
        _ => Err(ErrorKind::Type),
    }
}

/// Reads a separator argument.
fn read_sep_arg(sep: &Value, auto: ListSeparator) -> (res: Result<ListSeparator, SassError>)
    ensures
        match spec_sep_arg(sep@, auto) {
            Ok(s) => res matches Ok(x) && x == s,
            Err(k) => res matches Err(e) && e.kind == k,
        },
{
    match sep {
        Value::Ident(s, _) => {
            if str_eq(s.as_str(), "auto") {
                Ok(auto)
            } else if str_eq(s.as_str(), "comma") {
                Ok(ListSeparator::Comma)
            } else if str_eq(s.as_str(), "space") {
                Ok(ListSeparator::Space)
            } else {
                Err(
                    SassError::new(
                        ErrorKind::Type,
                        String::from_str(
                            "$separator: Must be \"space\", \"comma\", or \"auto\".",
                        ),
                    ),
                )
            }
        },
        _ => {
            proof {
                crate::value::lemma_value_model_variant(*sep);
            }
            Err(SassError::new(ErrorKind::Type, String::from_str("$separator: not a string.")))
        },
    }
}

/// What the append function yields: the value as a list with one more
/// item at the end; the separator argument may override the list's own.
pub open spec fn spec_append(l: ValueModel, v: ValueModel, s: ValueModel) -> Result<
    ValueModel,
    ErrorKind,
> {
    match spec_sep_arg(s, spec_sep_of(l)) {
        Ok(sep) => Ok(ValueModel::List(spec_coerce_list(l).push(v), sep, spec_brackets_of(l))),
        Err(k) => Err(k),
    }
}

/// The list function `append`.
pub fn append(list: &Value, val: Value, sep: &Value) -> (res: Result<Value, SassError>)
    ensures
        match spec_append(list@, val@, sep@) {
            Ok(m) => res matches Ok(out) && out@ == m,
            Err(k) => res matches Err(e) && e.kind == k,
        },
{
    broadcast use crate::value::lemma_seq_value_model_len, crate::value::lemma_seq_value_model_index;

    let chosen = match read_sep_arg(sep, coerce_to_items(list).1) {
        Ok(c) => c,
        Err(e) => {
            return Err(e);
        },
    };
    let (mut items, _, br) = coerce_to_items(list);
    let ghost before: Seq<ValueModel> = seq_value_model(items@);
    let ghost vm: ValueModel = val@;
    items.push(val);
    proof {
        assert(seq_value_model(items@) =~= before.push(vm));
    }
    Ok(Value::List(items, chosen, br))
}

/// What the join function yields: the two values as lists, one after the
/// other; with `auto` the separator is space when both sides are short,
/// else the first non-empty side's own.
pub open spec fn spec_join(l1: ValueModel, l2: ValueModel, s: ValueModel, b: ValueModel) -> Result<
    ValueModel,
    ErrorKind,
> {
    let auto = if spec_coerce_list(l1).len() < 2 && spec_coerce_list(l2).len() < 2 {
        ListSeparator::Space
    } else if spec_coerce_list(l1).len() == 0 {
        spec_sep_of(l2)
    } else {
        spec_sep_of(l1)
    };
    let br = match b {
        ValueModel::Ident(t, _) => if t == "auto"@ {
            spec_brackets_of(l1)
        } else {
            Brackets::Bracketed
        },
        other => if crate::eval::model_is_true(other) {
            Brackets::Bracketed
        } else {
            Brackets::Unbracketed
        },
    };
    match spec_sep_arg(s, auto) {
        Ok(sep) => Ok(ValueModel::List(spec_coerce_list(l1) + spec_coerce_list(l2), sep, br)),
        Err(k) => Err(k),
    }
}

/// The list function `join`.
pub fn join(list1: &Value, list2: &Value, sep: &Value, bracketed: &Value) -> (res: Result<
    Value,
    SassError,
>)
    ensures
        match spec_join(list1@, list2@, sep@, bracketed@) {
            Ok(m) => res matches Ok(out) && out@ == m,
            Err(k) => res matches Err(e) && e.kind == k,
        },
{
    broadcast use crate::value::lemma_seq_value_model_len, crate::value::lemma_seq_value_model_index;

    let (mut items1, sep1, br1) = coerce_to_items(list1);
    let (mut items2, sep2, _) = coerce_to_items(list2);
    let auto = if items1.len() < 2 && items2.len() < 2 {
        ListSeparator::Space
    } else if items1.len() == 0 {
        sep2
    } else {
        sep1
    };
    let chosen = match read_sep_arg(sep, auto) {
        Ok(c) => c,
        Err(e) => {
            return Err(e);
        },
    };
    let br = match bracketed {
        Value::Ident(t, _) => {
            if str_eq(t.as_str(), "auto") {
                br1
            } else {
                Brackets::Bracketed
            }
        },
        other => {
            proof {
                crate::value::lemma_value_model_variant(*other);
            }
            if other.is_true() {
                Brackets::Bracketed
            } else {
                Brackets::Unbracketed
            }
        },
    };
    let ghost m1: Seq<ValueModel> = seq_value_model(items1@);
    let ghost m2: Seq<ValueModel> = seq_value_model(items2@);
    let mut k: usize = 0;
    #[verifier::loop_isolation(false)]
    while k < items2.len()
        invariant
            k <= items2@.len(),
            seq_value_model(items1@) =~= m1 + m2.subrange(0, k as int),
        decreases items2@.len() - k,
    {
        let ghost prev: Seq<Value> = items1@;
        items1.push(items2[k].clone_value());
        proof {
            assert(m2[k as int] == value_model(items2@[k as int]));
            assert(m2.subrange(0, k + 1 as int) =~= m2.subrange(0, k as int).push(
                m2[k as int],
            ));
            assert forall|j: int|
                0 <= j < items1@.len() implies seq_value_model(items1@)[j] == (m1 + m2.subrange(
                0,
                k + 1 as int,
            ))[j] by {
                assert(seq_value_model(items1@)[j] == value_model(items1@[j]));
                if j < prev.len() {
                    assert(items1@[j] == prev[j]);
                    assert(seq_value_model(prev)[j] == value_model(prev[j]));
                }
            }
            assert(seq_value_model(items1@) =~= m1 + m2.subrange(0, k + 1));
        }
        k = k + 1;
    }
    proof {
        assert(m2.subrange(0, m2.len() as int) =~= m2);
        assert(seq_value_model(items1@) =~= m1 + m2);
    }
    Ok(Value::List(items1, chosen, br))
}

/// What the set-nth function yields: the value as a list with the item a
/// one-based index names replaced.
pub open spec fn spec_set_nth(l: ValueModel, n: ValueModel, v: ValueModel) -> Result<
    ValueModel,
    ErrorKind,
> {
    match n {
        ValueModel::Dimension(num, _) => match spec_nth_index(num, spec_coerce_list(l).len() as int) {
            Ok(i) => Ok(
                ValueModel::List(
                    spec_coerce_list(l).update(i, v),
                    spec_sep_of(l),
                    spec_brackets_of(l),
                ),
            ),
            Err(k) => Err(k),
        },
        _ => Err(ErrorKind::Type),
    }
}

/// The list function `set-nth`.
pub fn set_nth(list: &Value, n: &Value, val: Value) -> (res: Result<Value, SassError>)
    ensures
        !(n@ is Dimension) ==> (res matches Err(e) && e.kind == ErrorKind::Type && e.message@
            == "$n: "@ + spec_value_string(n@) + " is not a number."@),
        n@ is Dimension && spec_coerce_list(list@).len() <= i64::MAX ==> match spec_set_nth(
            list@,
            n@,
            val@,
        ) {
            Ok(m) => res matches Ok(out) && out@ == m,
            Err(k) => res matches Err(e) && e.kind == k,
        },
        n@ is Dimension && spec_coerce_list(list@).len() > i64::MAX ==> (res matches Err(e)
            && e.kind == ErrorKind::Range),
{
    broadcast use crate::value::lemma_seq_value_model_len, crate::value::lemma_seq_value_model_index;

    let num: &Number = match n {
        Value::Dimension(num, _) => num,
        _ => {
            proof {
                crate::value::lemma_value_model_variant(*n);
            }
            let mut msg = String::from_str("$n: ");
            msg.append(n.to_css_string().as_str());
            msg.append(" is not a number.");
            proof {
                assert(msg@ =~= "$n: "@ + spec_value_string(n@) + " is not a number."@);
            }
            return Err(SassError::new(ErrorKind::Type, msg));
        },
    };
    let (mut items, sep0, br) = coerce_to_items(list);
    if items.len() as u64 > i64::MAX as u64 {
        return Err(
            SassError::new(ErrorKind::Range, String::from_str("the list is too long to index")),
        );
    }
    let idx: usize = match resolve_index(num, items.len()) {
        Ok(i) => i,
        Err(e) => {
            return Err(e);
        },
    };
    let ghost before: Seq<ValueModel> = seq_value_model(items@);
    let ghost vm: ValueModel = val@;
    items.set(idx, val);
    proof {
        assert(seq_value_model(items@) =~= before.update(idx as int, vm));
    }
    Ok(Value::List(items, sep0, br))
}

/// The list function `is-bracketed`.
pub fn is_bracketed(list: &Value) -> (res: Value)
    ensures
        res@ == if spec_brackets_of(list@) is Bracketed {
            ValueModel::True
        } else {
            ValueModel::False
        },
{
    match list {
        Value::List(_, _, br) => Value::from_bool(matches!(br, Brackets::Bracketed)),
        _ => {
            proof {
                crate::value::lemma_value_model_variant(*list);
            }
            Value::from_bool(false)
        },
    }
}

/// The list function `list-separator`: the separator's name as an
/// unquoted string.
pub fn list_separator(list: &Value) -> (res: Value)
    ensures
        res@ == ValueModel::Ident(spec_sep_of(list@).spec_name(), QuoteKind::Unquoted),
{
    let sep: ListSeparator = match list {
        Value::List(_, sep, _) => *sep,
        Value::SassMap(_) => ListSeparator::Comma,
        Value::ArgList(_) => ListSeparator::Comma,
        _ => {
            proof {
                crate::value::lemma_value_model_variant(*list);
            }
            ListSeparator::Space
        },
    };
    Value::Ident(String::from_str(sep.name()), QuoteKind::Unquoted)
}

/// The position of the first item that equals the target, if any.
pub open spec fn spec_index_of(items: Seq<ValueModel>, t: ValueModel) -> Option<int>
    decreases items.len(),
{
    if items.len() == 0 {
        None
    } else if val_eq(items[0], t) {
        Some(0)
    } else {
        match spec_index_of(items.subrange(1, items.len() as int), t) {
            Some(j) => Some(j + 1),
            None => None,
        }
    }
}

/// The first match is the least position that equals the target.
pub proof fn lemma_index_of_char(items: Seq<ValueModel>, t: ValueModel)
    ensures
        spec_index_of(items, t) matches Some(j) ==> 0 <= j < items.len() && val_eq(items[j], t)
            && (forall|l: int| 0 <= l < j ==> !val_eq(#[trigger] items[l], t)),
        spec_index_of(items, t) is None ==> (forall|l: int|
            0 <= l < items.len() ==> !val_eq(#[trigger] items[l], t)),
    decreases items.len(),
{
    if items.len() > 0 && !val_eq(items[0], t) {
        let tail = items.subrange(1, items.len() as int);
        lemma_index_of_char(tail, t);
        match spec_index_of(tail, t) {
            Some(j) => {
                assert(tail[j] == items[j + 1]);
                assert forall|l: int| 0 <= l < j + 1 implies !val_eq(#[trigger] items[l], t) by {
                    if l > 0 {
                        assert(tail[l - 1] == items[l]);
                    }
                }
            },
            None => {
                assert forall|l: int|
                    0 <= l < items.len() implies !val_eq(#[trigger] items[l], t) by {
                    if l > 0 {
                        assert(tail[l - 1] == items[l]);
                    }
                }
            },
        }
    }
}

/// The list function `index`: the one-based position of the first item
/// that equals the value, or null when none does.
pub fn index(list: &Value, value: &Value) -> (res: Result<Value, SassError>)
    ensures
        spec_coerce_list(list@).len() <= i64::MAX ==> match spec_index_of(
            spec_coerce_list(list@),
            value@,
        ) {
            Some(j) => res matches Ok(out) && out@ == ValueModel::Dimension(
                Number { numer: (j + 1) as i64, denom: 1 },
                crate::units::Unit::NoUnit,
            ),
            None => res matches Ok(out) && out@ == ValueModel::Null,
        },
        spec_coerce_list(list@).len() > i64::MAX ==> (res matches Err(e) && e.kind
            == ErrorKind::Range),
{
    broadcast use crate::value::lemma_seq_value_model_len, crate::value::lemma_seq_value_model_index;

    let (items, _, _) = coerce_to_items(list);
    if items.len() as u64 > i64::MAX as u64 {
        return Err(
            SassError::new(ErrorKind::Range, String::from_str("the list is too long to search")),
        );
    }
    let ghost models: Seq<ValueModel> = seq_value_model(items@);
    let mut i: usize = 0;
    #[verifier::loop_isolation(false)]
    while i < items.len()
        invariant
            i <= items@.len(),
            forall|l: int| 0 <= l < i ==> !val_eq(#[trigger] models[l], value@),
        decreases items@.len() - i,
    {
        if items[i].equals(value) {
            proof {
                lemma_index_of_prefix(models, value@, i as int);
            }
            return Ok(
                Value::Dimension(Number::from_integer(i as i64 + 1), crate::units::Unit::NoUnit),
            );
        }
        i = i + 1;
    }
    proof {
        lemma_index_of_none(models, value@);
    }
    Ok(Value::Null)
}

/// When everything before a matching position misses, the first match is
/// that position.
proof fn lemma_index_of_prefix(items: Seq<ValueModel>, t: ValueModel, j: int)
    requires
        0 <= j < items.len(),
        val_eq(items[j], t),
        forall|l: int| 0 <= l < j ==> !val_eq(#[trigger] items[l], t),
    ensures
        spec_index_of(items, t) == Some(j),
    decreases j,
{
    if j == 0 {
    } else {
        let tail = items.subrange(1, items.len() as int);
        assert(forall|l: int| 0 <= l < tail.len() ==> #[trigger] tail[l] == items[l + 1]);
        lemma_index_of_prefix(tail, t, j - 1);
    }
}

/// When every position misses, there is no first match.
proof fn lemma_index_of_none(items: Seq<ValueModel>, t: ValueModel)
    requires
        forall|l: int| 0 <= l < items.len() ==> !val_eq(#[trigger] items[l], t),
    ensures
        spec_index_of(items, t) is None,
    decreases items.len(),
{
    if items.len() > 0 {
        let tail = items.subrange(1, items.len() as int);
        assert(forall|l: int| 0 <= l < tail.len() ==> #[trigger] tail[l] == items[l + 1]);
        lemma_index_of_none(tail, t);
    }
}

/// A built-in list function.
#[derive(Clone, Copy, Debug, PartialEq, Eq, Structural)]
pub enum Builtin {
    Length,
    Nth,
    ListSeparatorFn,
    SetNth,
    Append,
    Join,
    IsBracketed,
    Index,
}

/// Fills the registry with the list functions under their names, in a
/// fixed order.
pub fn register(f: &mut Vec<(String, Builtin)>)
    ensures
        final(f)@.len() == old(f)@.len() + 8,
        final(f)@.subrange(0, old(f)@.len() as int) == old(f)@,
        final(f)@[old(f)@.len() as int].0@ == "length"@ && final(f)@[old(f)@.len() as int].1
            == Builtin::Length,
        final(f)@[old(f)@.len() as int + 1].0@ == "nth"@ && final(f)@[old(f)@.len() as int + 1].1
            == Builtin::Nth,
        final(f)@[old(f)@.len() as int + 2].0@ == "list-separator"@ && final(f)@[old(f)@.len() as int + 2].1
            == Builtin::ListSeparatorFn,
        final(f)@[old(f)@.len() as int + 3].0@ == "set-nth"@ && final(f)@[old(f)@.len() as int + 3].1
            == Builtin::SetNth,
        final(f)@[old(f)@.len() as int + 4].0@ == "append"@ && final(f)@[old(f)@.len() as int + 4].1
            == Builtin::Append,
        final(f)@[old(f)@.len() as int + 5].0@ == "join"@ && final(f)@[old(f)@.len() as int + 5].1
            == Builtin::Join,
        final(f)@[old(f)@.len() as int + 6].0@ == "is-bracketed"@ && final(f)@[old(f)@.len() as int + 6].1
            == Builtin::IsBracketed,
        final(f)@[old(f)@.len() as int + 7].0@ == "index"@ && final(f)@[old(f)@.len() as int + 7].1
            == Builtin::Index,
{
    f.push((String::from_str("length"), Builtin::Length));
    f.push((String::from_str("nth"), Builtin::Nth));
    f.push((String::from_str("list-separator"), Builtin::ListSeparatorFn));
    f.push((String::from_str("set-nth"), Builtin::SetNth));
    f.push((String::from_str("append"), Builtin::Append));
    f.push((String::from_str("join"), Builtin::Join));
    f.push((String::from_str("is-bracketed"), Builtin::IsBracketed));
    f.push((String::from_str("index"), Builtin::Index));
    proof {
        assert(f@.subrange(0, old(f)@.len() as int) =~= old(f)@);
    }
}

/// Looks a built-in up by name.
pub fn lookup_builtin(f: &Vec<(String, Builtin)>, name: &str) -> (res: Option<Builtin>)
    ensures
        res matches Some(b) ==> exists|i: int|
            0 <= i < f@.len() && #[trigger] f@[i].0@ == name@ && f@[i].1 == b,
        res is None ==> forall|i: int| 0 <= i < f@.len() ==> #[trigger] f@[i].0@ != name@,
{
    let mut i: usize = 0;
    #[verifier::loop_isolation(false)]
    while i < f.len()
        invariant
            i <= f@.len(),
            forall|j: int| 0 <= j < i ==> #[trigger] f@[j].0@ != name@,
        decreases f@.len() - i,
    {
        if str_eq(f[i].0.as_str(), name) {
            return Some(f[i].1);
        }
        i = i + 1;
    }
    None
}

/// A one-based index into a list mirrors its negative counterpart:
/// counting from the front with `i` and from the end with
/// `i - length - 1` name the same position.
pub proof fn lemma_nth_negative_mirror(items: Seq<ValueModel>, k: int)
    requires
        1 <= k <= items.len(),
        items.len() <= 0x7fff_ffff,
    ensures
        spec_nth_index(Number { numer: k as i64, denom: 1 }, items.len() as int)
            == spec_nth_index(
            Number { numer: (k - items.len() - 1) as i64, denom: 1 },
            items.len() as int,
        ),
        spec_nth_index(Number { numer: k as i64, denom: 1 }, items.len() as int) == Ok::<
            int,
            ErrorKind,
        >(k - 1),
{
}

/// Appending never changes the items already there, and makes the list
/// one longer.
pub proof fn lemma_append_length(l: ValueModel, v: ValueModel, s: ValueModel)
    requires
        spec_sep_arg(s, spec_sep_of(l)) is Ok,
    ensures
        spec_append(l, v, s) matches Ok(m) && spec_length(m) == spec_length(l) + 1,
{
}

/// Joining with an empty list keeps the items and the brackets; only the
/// separator may be re-inferred.
pub proof fn lemma_join_identity(x: ValueModel, auto: ValueModel)
    requires
        auto == ValueModel::Ident("auto"@, QuoteKind::Unquoted),
    ensures
        spec_join(
            x,
            ValueModel::List(Seq::empty(), ListSeparator::Space, Brackets::Unbracketed),
            auto,
            auto,
        ) matches Ok(m) && m matches ValueModel::List(items, _, br) && items
            == spec_coerce_list(x) && br == spec_brackets_of(x),
        spec_join(
            ValueModel::List(Seq::empty(), ListSeparator::Space, Brackets::Unbracketed),
            x,
            auto,
            auto,
        ) matches Ok(m) && m matches ValueModel::List(items, _, _) && items == spec_coerce_list(
            x,
        ),
{
    let e = ValueModel::List(Seq::empty(), ListSeparator::Space, Brackets::Unbracketed);
    assert(spec_coerce_list(e) + spec_coerce_list(x) =~= spec_coerce_list(x));
    assert(spec_coerce_list(x) + spec_coerce_list(e) =~= spec_coerce_list(x));
}

/// For a list of pairwise distinct items, the position of the item a
/// one-based index names is that same index.
pub proof fn lemma_index_of_nth(items: Seq<ValueModel>, k: int)
    requires
        1 <= k <= items.len(),
        forall|a: int, b: int|
            0 <= a < items.len() && 0 <= b < items.len() && a != b ==> !val_eq(
                #[trigger] items[a],
                #[trigger] items[b],
            ),
    ensures
        spec_index_of(items, items[k - 1]) == Some(k - 1),
{
    crate::value::lemma_val_eq_reflexive(items[k - 1]);
    lemma_index_of_prefix(items, items[k - 1], k - 1);
}


} // verus!
