//! Operator semantics and evaluation of value trees. A binary operation
//! node reduces by evaluating both sides and applying the operator;
//! every other value is already evaluated.

use vstd::prelude::*;
use crate::common::Op;
use crate::error::{ErrorKind, SassError};
use crate::number::Number;
use crate::units::Unit;
use crate::value::{val_eq, value_model, Value, ValueModel};

verus! {

/// Truthiness on models: null and false are falsey.
pub open spec fn model_is_true(m: ValueModel) -> bool {
    !(m is Null || m is False)
}

/// The sum or difference of two numbers over the product of their
/// denominators; an error when a field leaves the machine word.
pub open spec fn spec_checked_combine(a: Number, b: Number, add: bool) -> Result<Number, ErrorKind> {
    let n = if add {
        a.numer * b.denom + b.numer * a.denom
    } else {
        a.numer * b.denom - b.numer * a.denom
    };
    let d = a.denom * b.denom;
    if i64::MIN <= n <= i64::MAX && d <= i64::MAX {
        Ok(Number { numer: n as i64, denom: d as i64 })
    } else {
        Err(ErrorKind::Range)
    }
}

/// What applying a binary operator to two evaluated values yields.
pub open spec fn spec_apply_op(l: ValueModel, op: Op, r: ValueModel) -> Result<
    ValueModel,
    ErrorKind,
> {
    match op {
        Op::Plus => match (l, r) {
            (ValueModel::Dimension(a, ua), ValueModel::Dimension(b, ub)) => {
                if !Unit::spec_compatible(ua, ub) {
                    Err(ErrorKind::Unit)
                } else {
                    match spec_checked_combine(a, b, true) {
                        Ok(n) => Ok(ValueModel::Dimension(n, Unit::spec_propagate(ua, ub))),
                        Err(k) => Err(k),
                    }
                }
            },
            (ValueModel::Ident(s1, q1), ValueModel::Ident(s2, q2)) => Ok(
                ValueModel::Ident(s1 + s2, q1),
            ),
            _ => Err(ErrorKind::Type),
        },
        Op::Minus => match (l, r) {
            (ValueModel::Dimension(a, ua), ValueModel::Dimension(b, ub)) => {
                if !Unit::spec_compatible(ua, ub) {
                    Err(ErrorKind::Unit)
                } else {
                    match spec_checked_combine(a, b, false) {
                        Ok(n) => Ok(ValueModel::Dimension(n, Unit::spec_propagate(ua, ub))),
                        Err(k) => Err(k),
                    }
                }
            },
            _ => Err(ErrorKind::Type),
        },
        Op::Mul => match (l, r) {
            (ValueModel::Dimension(a, ua), ValueModel::Dimension(b, ub)) => {
                if ua != Unit::NoUnit && ub != Unit::NoUnit {
                    Err(ErrorKind::Unit)
                } else {
                    let n = a.numer * b.numer;
                    let d = a.denom * b.denom;
                    if i64::MIN <= n <= i64::MAX && d <= i64::MAX {
                        Ok(
                            ValueModel::Dimension(
                                Number { numer: n as i64, denom: d as i64 },
                                Unit::spec_propagate(ua, ub),
                            ),
                        )
                    } else {
                        Err(ErrorKind::Range)
                    }
                }
            },
            _ => Err(ErrorKind::Type),
        },
        Op::Div => match (l, r) {
            (ValueModel::Dimension(a, ua), ValueModel::Dimension(b, ub)) => {
                if b.numer == 0 {
                    Err(ErrorKind::Range)
                } else if !(ub == Unit::NoUnit || ub == ua) {
                    Err(ErrorKind::Unit)
                } else {
                    let n0 = a.numer * b.denom;
                    let d0 = a.denom * b.numer;
                    let n = if d0 < 0 {
                        -n0
                    } else {
                        n0
                    };
                    let d = if d0 < 0 {
                        -d0
                    } else {
                        d0
                    };
                    let u = if ub == ua {
                        Unit::NoUnit
                    } else {
                        ua
                    };
                    if i64::MIN <= n <= i64::MAX && d <= i64::MAX {
                        Ok(ValueModel::Dimension(Number { numer: n as i64, denom: d as i64 }, u))
                    } else {
                        Err(ErrorKind::Range)
                    }
                }
            },
            _ => Err(ErrorKind::Type),
        },
        Op::Rem => match (l, r) {
            (ValueModel::Dimension(a, ua), ValueModel::Dimension(b, ub)) => {
                if !Unit::spec_compatible(ua, ub) {
                    Err(ErrorKind::Unit)
                } else if a.denom < 1 || b.denom < 1 || !(a.numer % a.denom == 0 && b.numer
                    % b.denom == 0) || a.numer < 0 {
                    Err(ErrorKind::Type)
                } else if b.numer / b.denom <= 0 {
                    Err(ErrorKind::Range)
                } else {
                    Ok(
                        ValueModel::Dimension(
                            Number {
                                numer: ((a.numer / a.denom) % (b.numer / b.denom)) as i64,
                                denom: 1,
                            },
                            Unit::spec_propagate(ua, ub),
                        ),
                    )
                }
            },
            _ => Err(ErrorKind::Type),
        },
        Op::Equal => Ok(if val_eq(l, r) {
            ValueModel::True
        } else {
            ValueModel::False
        }),
        Op::NotEqual => Ok(
            if val_eq(l, r) {
                ValueModel::False
            } else {
                ValueModel::True
            },
        ),
        Op::Lt | Op::Le | Op::Gt | Op::Ge => match (l, r) {
            (ValueModel::Dimension(a, ua), ValueModel::Dimension(b, ub)) => {
                if !Unit::spec_compatible(ua, ub) {
                    Err(ErrorKind::Unit)
                } else {
                    let lhs = a.numer * b.denom;
                    let rhs = b.numer * a.denom;
                    let c = match op {
                        Op::Lt => lhs < rhs,
                        Op::Le => lhs <= rhs,
                        Op::Gt => lhs > rhs,
                        _ => lhs >= rhs,
                    };
                    Ok(
                        if c {
                            ValueModel::True
                        } else {
                            ValueModel::False
                        },
                    )
                }
            },
            _ => Err(ErrorKind::Type),
        },
        Op::And => Ok(
            if model_is_true(l) {
                r
            } else {
                l
            },
        ),
        Op::Or => Ok(
            if model_is_true(l) {
                l
            } else {
                r
            },
        ),
        Op::Not => Ok(
            if model_is_true(r) {
                ValueModel::False
            } else {
                ValueModel::True
            },
        ),
    }
}

/// What evaluating a value yields: operation nodes reduce, parentheses
/// unwrap, everything else is already evaluated and yields itself.
pub open spec fn spec_eval(m: ValueModel) -> Result<ValueModel, ErrorKind>
    decreases m,
{
    match m {
        ValueModel::BinaryOp(l, op, r) => match spec_eval(*l) {
            Ok(lv) => match spec_eval(*r) {
                Ok(rv) => spec_apply_op(lv, op, rv),
                Err(k) => Err(k),
            },
            Err(k) => Err(k),
        },
        ValueModel::Paren(inner) => spec_eval(*inner),
        other => Ok(other),
    }
}

/// The result of an executable step agrees with the modeled result.
pub open spec fn res_matches(r: Result<Value, SassError>, m: Result<ValueModel, ErrorKind>) -> bool {
    match m {
        Ok(mm) => r matches Ok(v) && value_model(v) == mm,
        Err(k) => r matches Err(e) && e.kind == k,
    }
}

/// Applies a binary operator to two evaluated values.
#[verifier::rlimit(100)]
pub fn apply_op(l: Value, op: Op, r: Value) -> (res: Result<Value, SassError>)
    ensures
        res_matches(res, spec_apply_op(value_model(l), op, value_model(r))),
{
    match op {
        Op::Plus => match (l, r) {
            (Value::Dimension(a, ua), Value::Dimension(b, ub)) => {
                if !Unit::compatible(ua, ub) {
                    Err(SassError::new(ErrorKind::Unit, String::from_str("incompatible units")))
                } else {
                    match combine_checked(&a, &b, true) {
                        Ok(n) => Ok(Value::Dimension(n, Unit::propagate(ua, ub))),
                        Err(e) => Err(e),
                    }
                }
            },
            (Value::Ident(s1, q1), Value::Ident(s2, _q2)) => {
                Ok(Value::Ident(s1.concat(s2.as_str()), q1))
            },
            _ => Err(SassError::new(ErrorKind::Type, String::from_str("Undefined operation."))),
        },
        Op::Minus => match (l, r) {
            (Value::Dimension(a, ua), Value::Dimension(b, ub)) => {
                if !Unit::compatible(ua, ub) {
                    Err(SassError::new(ErrorKind::Unit, String::from_str("incompatible units")))
                } else {
                    match combine_checked(&a, &b, false) {
                        Ok(n) => Ok(Value::Dimension(n, Unit::propagate(ua, ub))),
                        Err(e) => Err(e),
                    }
                }
            },
            _ => Err(SassError::new(ErrorKind::Type, String::from_str("Undefined operation."))),
        },
        Op::Mul => match (l, r) {
            (Value::Dimension(a, ua), Value::Dimension(b, ub)) => {
                if ua != Unit::NoUnit && ub != Unit::NoUnit {
                    Err(SassError::new(ErrorKind::Unit, String::from_str("incompatible units")))
                } else {
                    match a.checked_mul(&b) {
                        Some(n) => Ok(Value::Dimension(n, Unit::propagate(ua, ub))),
                        None => Err(
                            SassError::new(
                                ErrorKind::Range,
                                String::from_str("arithmetic result is out of range"),
                            ),
                        ),
                    }
                }
            },
            _ => Err(SassError::new(ErrorKind::Type, String::from_str("Undefined operation."))),
        },
        Op::Div => match (l, r) {
            (Value::Dimension(a, ua), Value::Dimension(b, ub)) => {
                if b.is_zero() {
                    Err(SassError::new(ErrorKind::Range, String::from_str("Division by zero.")))
                } else if !(ub == Unit::NoUnit || ub == ua) {
                    Err(SassError::new(ErrorKind::Unit, String::from_str("incompatible units")))
                } else {
                    let u = if ub == ua {
                        Unit::NoUnit
                    } else {
                        ua
                    };
                    match a.checked_div(&b) {
                        Some(n) => Ok(Value::Dimension(n, u)),
                        None => Err(
                            SassError::new(
                                ErrorKind::Range,
                                String::from_str("arithmetic result is out of range"),
                            ),
                        ),
                    }
                }
            },
            _ => Err(SassError::new(ErrorKind::Type, String::from_str("Undefined operation."))),
        },
        Op::Rem => match (l, r) {
            (Value::Dimension(a, ua), Value::Dimension(b, ub)) => {
                if !Unit::compatible(ua, ub) {
                    Err(SassError::new(ErrorKind::Unit, String::from_str("incompatible units")))
                } else if a.denom < 1 || b.denom < 1 || a.is_decimal() || b.is_decimal()
                    || !a.is_positive() && !a.is_zero() {
                    Err(SassError::new(ErrorKind::Type, String::from_str("Undefined operation.")))
                } else {
                    let ka = a.to_integer();
                    let kb = b.to_integer();
                    if kb <= 0 {
                        Err(
                            SassError::new(
                                ErrorKind::Range,
                                String::from_str("modulo by a number that is not positive"),
                            ),
                        )
                    } else {
                        let m: i64 = modulo_nonneg(ka, kb);
                        Ok(Value::Dimension(Number::from_integer(m), Unit::propagate(ua, ub)))
                    }
                }
            },
            _ => Err(SassError::new(ErrorKind::Type, String::from_str("Undefined operation."))),
        },
        Op::Equal => Ok(Value::from_bool(l.equals(&r))),
        Op::NotEqual => Ok(Value::from_bool(!l.equals(&r))),
        Op::Lt | Op::Le | Op::Gt | Op::Ge => match (l, r) {
            (Value::Dimension(a, ua), Value::Dimension(b, ub)) => {
                if !Unit::compatible(ua, ub) {
                    Err(SassError::new(ErrorKind::Unit, String::from_str("incompatible units")))
                } else {
                    let le = a.le(&b);
                    let ge = b.le(&a);
                    let c = match op {
                        Op::Lt => le && !ge,
                        Op::Le => le,
                        Op::Gt => ge && !le,
                        _ => ge,
                    };
                    Ok(Value::from_bool(c))
                }
            },
            _ => Err(SassError::new(ErrorKind::Type, String::from_str("Undefined operation."))),
        },
        Op::And => {
            if l.is_true() {
                Ok(r)
            } else {
                Ok(l)
            }
        },
        Op::Or => {
            if l.is_true() {
                Ok(l)
            } else {
                Ok(r)
            }
        },
        Op::Not => Ok(Value::from_bool(!r.is_true())),
    }
}

/// The sum or difference of two numbers, with range errors reported.
fn combine_checked(a: &Number, b: &Number, add: bool) -> (res: Result<Number, SassError>)
    ensures
        match spec_checked_combine(*a, *b, add) {
            Ok(n) => res matches Ok(m) && m == n,
            Err(k) => res matches Err(e) && e.kind == k,
        },
{
    let r = if add {
        // The checked operations assume positive denominators; a raw
        // denominator never reaches here below one, but fall back to the
        // same arithmetic in doubled words either way.
        checked_combine_raw(a, b, true)
    } else {
        checked_combine_raw(a, b, false)
    };
    match r {
        Some(n) => Ok(n),
        None => Err(
            SassError::new(ErrorKind::Range, String::from_str("arithmetic result is out of range")),
        ),
    }
}

/// The raw combination in doubled words, for any denominators.
fn checked_combine_raw(a: &Number, b: &Number, add: bool) -> (r: Option<Number>)
    ensures
        ({
            let n = if add {
                a.numer * b.denom + b.numer * a.denom
            } else {
                a.numer * b.denom - b.numer * a.denom
            };
            let d = a.denom * b.denom;
            if i64::MIN <= n <= i64::MAX && d <= i64::MAX {
                r == Some(Number { numer: n as i64, denom: d as i64 })
            } else {
                r is None
            }
        }),
{
    proof {
        crate::number::lemma_word_product_bounds(a.numer as int, b.denom as int);
        crate::number::lemma_word_product_bounds(b.numer as int, a.denom as int);
        crate::number::lemma_word_product_bounds(a.denom as int, b.denom as int);
    }
    let p1: i128 = (a.numer as i128) * (b.denom as i128);
    let p2: i128 = (b.numer as i128) * (a.denom as i128);
    let n: i128 = if add {
        match p1.checked_add(p2) {
            Some(x) => x,
            None => {
                return None;
            },
        }
    } else {
        match p1.checked_sub(p2) {
            Some(x) => x,
            None => {
                return None;
            },
        }
    };
    let d: i128 = (a.denom as i128) * (b.denom as i128);
    if n < i64::MIN as i128 || n > i64::MAX as i128 || d > i64::MAX as i128 {
        None
    } else {
        Some(Number { numer: n as i64, denom: d as i64 })
    }
}

/// The remainder of two non-negative whole numbers.
fn modulo_nonneg(a: i64, b: i64) -> (r: i64)
    requires
        a >= 0,
        b > 0,
    ensures
        r == a % b,
{
    a % b
}

impl Value {
    /// Evaluates the value: operation nodes reduce, parentheses unwrap,
    /// and every other value yields itself.
    pub fn eval(self) -> (res: Result<Value, SassError>)
        ensures
            res_matches(res, spec_eval(self@)),
        decreases self,
    {
        match self {
            Value::BinaryOp(l, op, r) => {
                let lv = match (*l).eval() {
                    Ok(v) => v,
                    Err(e) => {
                        return Err(e);
                    },
                };
                let rv = match (*r).eval() {
                    Ok(v) => v,
                    Err(e) => {
                        return Err(e);
                    },
                };
                apply_op(lv, op, rv)
            },
            Value::Paren(inner) => (*inner).eval(),
            other => Ok(other),
        }
    }
}

/// Evaluating an already-evaluated value yields it unchanged: only
/// operation nodes and parentheses reduce further.
pub proof fn lemma_eval_idempotent_on_ground(m: ValueModel)
    requires
        !(m is BinaryOp),
        !(m is Paren),
    ensures
        spec_eval(m) == Ok::<ValueModel, ErrorKind>(m),
{
}

/// Adding zero to a dimension gives the dimension back exactly.
pub proof fn lemma_add_zero(d: Number, u: Unit)
    requires
        d.inv(),
    ensures
        spec_apply_op(
            ValueModel::Dimension(d, u),
            Op::Plus,
            ValueModel::Dimension(Number { numer: 0, denom: 1 }, Unit::NoUnit),
        ) == Ok::<ValueModel, ErrorKind>(ValueModel::Dimension(d, u)),
{
    let z = Number { numer: 0, denom: 1 };
    assert(Unit::spec_compatible(u, Unit::NoUnit));
    assert(d.numer * 1 + 0 * d.denom == d.numer) by (nonlinear_arith);
    assert(d.denom * 1 == d.denom) by (nonlinear_arith);
    assert(Unit::spec_propagate(u, Unit::NoUnit) == u);
}

/// Multiplying a dimension by one gives the dimension back exactly.
pub proof fn lemma_mul_one(d: Number, u: Unit)
    requires
        d.inv(),
    ensures
        spec_apply_op(
            ValueModel::Dimension(d, u),
            Op::Mul,
            ValueModel::Dimension(Number { numer: 1, denom: 1 }, Unit::NoUnit),
        ) == Ok::<ValueModel, ErrorKind>(ValueModel::Dimension(d, u)),
{
    assert(d.numer * 1 == d.numer) by (nonlinear_arith);
    assert(d.denom * 1 == d.denom) by (nonlinear_arith);
    assert(Unit::spec_propagate(u, Unit::NoUnit) == u);
}

/// Units propagate through addition: adding lengths in one unit adds the
/// numbers and keeps the unit, while adding a percentage to a length is a
/// unit error.
pub proof fn lemma_unit_propagation(a: Number, b: Number)
    requires
        a.inv(),
        b.inv(),
    ensures
        spec_checked_combine(a, b, true) matches Ok(n) ==> spec_apply_op(
            ValueModel::Dimension(a, Unit::Px),
            Op::Plus,
            ValueModel::Dimension(b, Unit::Px),
        ) == Ok::<ValueModel, ErrorKind>(ValueModel::Dimension(n, Unit::Px)),
        spec_apply_op(
            ValueModel::Dimension(a, Unit::Px),
            Op::Plus,
            ValueModel::Dimension(b, Unit::Percent),
        ) == Err::<ValueModel, ErrorKind>(ErrorKind::Unit),
{
}

} // verus!
