//! The value model: the algebra of evaluated expressions, its mathematical
//! model, structural value equality, truthiness, and quote handling.

use vstd::prelude::*;
use crate::color::Color;
use crate::common::{Brackets, Op};
use crate::number::Number;
use crate::units::Unit;

verus! {

/// How a string value is quoted. `Unquoted` means an identifier-like word.
#[derive(Clone, Copy, Debug, PartialEq, Eq, Structural)]
pub enum QuoteKind {
    Single,
    Double,
    Unquoted,
}

impl QuoteKind {
    pub open spec fn spec_str(self) -> Seq<char> {
        match self {
            QuoteKind::Single => "'"@,
            QuoteKind::Double => "\""@,
            QuoteKind::Unquoted => ""@,
        }
    }

    pub fn as_str(self) -> (r: &'static str)
        ensures
            r@ == self.spec_str(),
    {
        match self {
            QuoteKind::Single => "'",
            QuoteKind::Double => "\"",
            QuoteKind::Unquoted => "",
        }
    }
}

/// Whether the items of a list are joined by spaces or by commas.
#[derive(Clone, Copy, Debug, PartialEq, Eq, Structural)]
pub enum ListSeparator {
    Space,
    Comma,
}

impl ListSeparator {
    pub open spec fn spec_str(self) -> Seq<char> {
        match self {
            ListSeparator::Space => " "@,
            ListSeparator::Comma => ", "@,
        }
    }

    pub open spec fn spec_name(self) -> Seq<char> {
        match self {
            ListSeparator::Space => "space"@,
            ListSeparator::Comma => "comma"@,
        }
    }

    /// The text put between two printed items.
    pub fn as_str(self) -> (r: &'static str)
        ensures
            r@ == self.spec_str(),
    {
        match self {
            ListSeparator::Space => " ",
            ListSeparator::Comma => ", ",
        }
    }

    /// The separator's name, as the list-separator function reports it.
    pub fn name(self) -> (r: &'static str)
        ensures
            r@ == self.spec_name(),
    {
        match self {
            ListSeparator::Space => "space",
            ListSeparator::Comma => "comma",
        }
    }
}

/// An evaluated (or partially evaluated) value.
#[derive(Debug)]
pub enum Value {
    /// The literal `!important`.
    Important,
    True,
    False,
    Null,
    /// A number with a unit.
    Dimension(Number, Unit),
    /// An ordered list of values.
    List(Vec<Value>, ListSeparator, Brackets),
    Color(Color),
    /// An unevaluated operation, kept so the same expression can be
    /// evaluated again against a changed scope.
    BinaryOp(Box<Value>, Op, Box<Value>),
    /// A parenthesized value.
    Paren(Box<Value>),
    /// A string; unquoted strings are identifier-like words.
    Ident(String, QuoteKind),
    /// Ordered key-value pairs; insertion order is preserved.
    SassMap(Vec<(Value, Value)>),
    /// The trailing arguments a variadic parameter received.
    ArgList(Vec<Value>),
}

/// The mathematical model of a value: strings become character sequences
/// and vectors become sequences.
pub enum ValueModel {
    Important,
    True,
    False,
    Null,
    Dimension(Number, Unit),
    List(Seq<ValueModel>, ListSeparator, Brackets),
    Color(Color),
    BinaryOp(Box<ValueModel>, Op, Box<ValueModel>),
    Paren(Box<ValueModel>),
    Ident(Seq<char>, QuoteKind),
    SassMap(Seq<(ValueModel, ValueModel)>),
    ArgList(Seq<ValueModel>),
}

pub open spec fn value_model(v: Value) -> ValueModel
    decreases v,
{
    match v {
        Value::Important => ValueModel::Important,
        Value::True => ValueModel::True,
        Value::False => ValueModel::False,
        Value::Null => ValueModel::Null,
        Value::Dimension(n, u) => ValueModel::Dimension(n, u),
        Value::List(items, sep, br) => {
            proof {
                assert(decreases_to!(v => items@));
            }
            ValueModel::List(seq_value_model(items@), sep, br)
        },
        Value::Color(c) => ValueModel::Color(c),
        Value::BinaryOp(l, op, r) => ValueModel::BinaryOp(
            Box::new(value_model(*l)),
            op,
            Box::new(value_model(*r)),
        ),
        Value::Paren(inner) => ValueModel::Paren(Box::new(value_model(*inner))),
        Value::Ident(s, q) => ValueModel::Ident(s@, q),
        Value::SassMap(pairs) => {
            proof {
                assert(decreases_to!(v => pairs@));
            }
            ValueModel::SassMap(pair_value_model(pairs@))
        },
        Value::ArgList(items) => {
            proof {
                assert(decreases_to!(v => items@));
            }
            ValueModel::ArgList(seq_value_model(items@))
        },
    }
}

/// The models of a sequence of values, one by one.
pub open spec fn seq_value_model(s: Seq<Value>) -> Seq<ValueModel>
    decreases s,
{
    if s.len() == 0 {
        Seq::empty()
    } else {
        proof {
            assert(decreases_to!(s => s.subrange(1, s.len() as int)));
        }
        seq![value_model(s[0])] + seq_value_model(s.subrange(1, s.len() as int))
    }
}

/// The models of a sequence of key-value pairs.
pub open spec fn pair_value_model(s: Seq<(Value, Value)>) -> Seq<(ValueModel, ValueModel)>
    decreases s,
{
    if s.len() == 0 {
        Seq::empty()
    } else {
        proof {
            assert(decreases_to!(s => s.subrange(1, s.len() as int)));
            assert(decreases_to!(s => s[0]));
        }
        seq![(value_model(s[0].0), value_model(s[0].1))] + pair_value_model(
            s.subrange(1, s.len() as int),
        )
    }
}

pub broadcast proof fn lemma_seq_value_model_len(s: Seq<Value>)
    ensures
        (#[trigger] seq_value_model(s)).len() == s.len(),
    decreases s.len(),
{
    if s.len() > 0 {
        lemma_seq_value_model_len(s.subrange(1, s.len() as int));
    }
}

pub broadcast proof fn lemma_seq_value_model_index(s: Seq<Value>, i: int)
    requires
        0 <= i < s.len(),
    ensures
        #[trigger] seq_value_model(s)[i] == value_model(s[i]),
    decreases s.len(),
{
    lemma_seq_value_model_len(s);
    if i > 0 {
        lemma_seq_value_model_index(s.subrange(1, s.len() as int), i - 1);
    }
}

pub broadcast proof fn lemma_pair_value_model_len(s: Seq<(Value, Value)>)
    ensures
        (#[trigger] pair_value_model(s)).len() == s.len(),
    decreases s.len(),
{
    if s.len() > 0 {
        lemma_pair_value_model_len(s.subrange(1, s.len() as int));
    }
}

pub broadcast proof fn lemma_pair_value_model_index(s: Seq<(Value, Value)>, i: int)
    requires
        0 <= i < s.len(),
    ensures
        #[trigger] pair_value_model(s)[i] == (value_model(s[i].0), value_model(s[i].1)),
    decreases s.len(),
{
    lemma_pair_value_model_len(s);
    if i > 0 {
        lemma_pair_value_model_index(s.subrange(1, s.len() as int), i - 1);
    }
}

impl View for Value {
    type V = ValueModel;

    open spec fn view(&self) -> ValueModel {
        value_model(*self)
    }
}

/// Structural value equality of two models. Dimensions compare as
/// rationals with equal units; everything else compares field by field.
pub open spec fn val_eq(a: ValueModel, b: ValueModel) -> bool
    decreases a,
{
    match (a, b) {
        (ValueModel::Important, ValueModel::Important) => true,
        (ValueModel::True, ValueModel::True) => true,
        (ValueModel::False, ValueModel::False) => true,
        (ValueModel::Null, ValueModel::Null) => true,
        (ValueModel::Dimension(n1, u1), ValueModel::Dimension(n2, u2)) => n1.same_value(n2) && u1
            == u2,
        (ValueModel::List(v1, s1, b1), ValueModel::List(v2, s2, b2)) => {
            proof {
                assert(decreases_to!(a => v1));
            }
            s1 == s2 && b1 == b2 && seq_val_eq(v1, v2)
        },
        (ValueModel::Color(c1), ValueModel::Color(c2)) => c1.same_value(c2),
        (ValueModel::BinaryOp(l1, o1, r1), ValueModel::BinaryOp(l2, o2, r2)) => val_eq(*l1, *l2)
            && o1 == o2 && val_eq(*r1, *r2),
        (ValueModel::Paren(i1), ValueModel::Paren(i2)) => val_eq(*i1, *i2),
        (ValueModel::Ident(s1, q1), ValueModel::Ident(s2, q2)) => s1 == s2 && q1 == q2,
        (ValueModel::SassMap(p1), ValueModel::SassMap(p2)) => {
            proof {
                assert(decreases_to!(a => p1));
            }
            pair_val_eq(p1, p2)
        },
        (ValueModel::ArgList(v1), ValueModel::ArgList(v2)) => {
            proof {
                assert(decreases_to!(a => v1));
            }
            seq_val_eq(v1, v2)
        },
        _ => false,
    }
}

/// Structural equality of two sequences of models, item by item.
pub open spec fn seq_val_eq(x: Seq<ValueModel>, y: Seq<ValueModel>) -> bool
    decreases x,
{
    if x.len() != y.len() {
        false
    } else if x.len() == 0 {
        true
    } else {
        proof {
            assert(decreases_to!(x => x[0]));
            assert(decreases_to!(x => x.subrange(1, x.len() as int)));
        }
        val_eq(x[0], y[0]) && seq_val_eq(
            x.subrange(1, x.len() as int),
            y.subrange(1, y.len() as int),
        )
    }
}

/// Structural equality of one key-value pair against another.
pub open spec fn pair_entry_eq(p: (ValueModel, ValueModel), q: (ValueModel, ValueModel)) -> bool {
    val_eq(p.0, q.0) && val_eq(p.1, q.1)
}

/// Structural equality of two sequences of pairs of models.
pub open spec fn pair_val_eq(
    x: Seq<(ValueModel, ValueModel)>,
    y: Seq<(ValueModel, ValueModel)>,
) -> bool
    decreases x,
{
    if x.len() != y.len() {
        false
    } else if x.len() == 0 {
        true
    } else {
        proof {
            assert(decreases_to!(x => x[0]));
            assert(decreases_to!(x => x.subrange(1, x.len() as int)));
        }
        val_eq(x[0].0, y[0].0) && val_eq(x[0].1, y[0].1) && pair_val_eq(
            x.subrange(1, x.len() as int),
            y.subrange(1, y.len() as int),
        )
    }
}

/// Sequences are structurally equal exactly when they have one length and
/// agree item by item.
pub proof fn lemma_seq_val_eq_char(x: Seq<ValueModel>, y: Seq<ValueModel>)
    ensures
        seq_val_eq(x, y) <==> (x.len() == y.len() && forall|i: int|
            0 <= i < x.len() ==> #[trigger] val_eq(x[i], y[i])),
    decreases x.len(),
{
    if x.len() == y.len() && x.len() > 0 {
        let xt = x.subrange(1, x.len() as int);
        let yt = y.subrange(1, y.len() as int);
        lemma_seq_val_eq_char(xt, yt);
        if seq_val_eq(x, y) {
            assert forall|i: int| 0 <= i < x.len() implies #[trigger] val_eq(x[i], y[i]) by {
                if i > 0 {
                    assert(xt[i - 1] == x[i]);
                    assert(yt[i - 1] == y[i]);
                    assert(val_eq(xt[i - 1], yt[i - 1]));
                }
            }
        } else {
            if val_eq(x[0], y[0]) {
                assert(!seq_val_eq(xt, yt));
                let i = choose|i: int| 0 <= i < xt.len() && !val_eq(xt[i], yt[i]);
                assert(xt[i] == x[i + 1]);
                assert(yt[i] == y[i + 1]);
                assert(!val_eq(x[i + 1], y[i + 1]));
            }
        }
    }
}

/// Pair sequences are structurally equal exactly when they have one length
/// and agree pairwise.
pub proof fn lemma_pair_val_eq_char(
    x: Seq<(ValueModel, ValueModel)>,
    y: Seq<(ValueModel, ValueModel)>,
)
    ensures
        pair_val_eq(x, y) <==> (x.len() == y.len() && forall|i: int|
            0 <= i < x.len() ==> #[trigger] pair_entry_eq(x[i], y[i])),
    decreases x.len(),
{
    if x.len() == y.len() && x.len() > 0 {
        let xt = x.subrange(1, x.len() as int);
        let yt = y.subrange(1, y.len() as int);
        lemma_pair_val_eq_char(xt, yt);
        if pair_val_eq(x, y) {
            assert forall|i: int| 0 <= i < x.len() implies #[trigger] pair_entry_eq(x[i], y[i]) by {
                if i > 0 {
                    assert(xt[i - 1] == x[i]);
                    assert(yt[i - 1] == y[i]);
                    assert(pair_entry_eq(xt[i - 1], yt[i - 1]));
                } else {
                    assert(pair_entry_eq(x[0], y[0]));
                }
            }
        } else {
            if pair_entry_eq(x[0], y[0]) {
                assert(!pair_val_eq(xt, yt));
                let i = choose|i: int| 0 <= i < xt.len() && !pair_entry_eq(xt[i], yt[i]);
                assert(xt[i] == x[i + 1]);
                assert(yt[i] == y[i + 1]);
                assert(!pair_entry_eq(x[i + 1], y[i + 1]));
            }
        }
    }
}

/// Structural value equality is reflexive.
pub proof fn lemma_val_eq_reflexive(a: ValueModel)
    ensures
        val_eq(a, a),
    decreases a,
{
    match a {
        ValueModel::List(v, s, b) => {
            assert forall|i: int| 0 <= i < v.len() implies #[trigger] val_eq(v[i], v[i]) by {
                lemma_val_eq_reflexive(v[i]);
            }
            lemma_seq_val_eq_char(v, v);
        },
        ValueModel::BinaryOp(l, o, r) => {
            lemma_val_eq_reflexive(*l);
            lemma_val_eq_reflexive(*r);
        },
        ValueModel::Paren(i) => {
            lemma_val_eq_reflexive(*i);
        },
        ValueModel::SassMap(p) => {
            assert forall|i: int|
                0 <= i < p.len() implies #[trigger] val_eq(p[i].0, p[i].0) && val_eq(
                p[i].1,
                p[i].1,
            ) by {
                lemma_val_eq_reflexive(p[i].0);
                lemma_val_eq_reflexive(p[i].1);
            }
            lemma_pair_val_eq_char(p, p);
        },
        ValueModel::ArgList(v) => {
            assert forall|i: int| 0 <= i < v.len() implies #[trigger] val_eq(v[i], v[i]) by {
                lemma_val_eq_reflexive(v[i]);
            }
            lemma_seq_val_eq_char(v, v);
        },
        _ => {},
    }
}

/// The model keeps the variant of the value it models.
pub proof fn lemma_value_model_variant(v: Value)
    ensures
        value_model(v) is Important <==> v is Important,
        value_model(v) is True <==> v is True,
        value_model(v) is False <==> v is False,
        value_model(v) is Null <==> v is Null,
        value_model(v) is Dimension <==> v is Dimension,
        value_model(v) is List <==> v is List,
        value_model(v) is Color <==> v is Color,
        value_model(v) is BinaryOp <==> v is BinaryOp,
        value_model(v) is Paren <==> v is Paren,
        value_model(v) is Ident <==> v is Ident,
        value_model(v) is SassMap <==> v is SassMap,
        value_model(v) is ArgList <==> v is ArgList,
{
}

impl Value {
    /// Null and false are falsey; everything else is truthy.
    pub open spec fn spec_is_true(self) -> bool {
        !(self is Null || self is False)
    }

    pub fn is_true(&self) -> (r: bool)
        ensures
            r == self.spec_is_true(),
    {
        !(matches!(self, Value::Null) || matches!(self, Value::False))
    }

    /// Turns true or false into the corresponding value.
    pub fn from_bool(b: bool) -> (r: Value)
        ensures
            r == if b {
                Value::True
            } else {
                Value::False
            },
    {
        if b {
            Value::True
        } else {
            Value::False
        }
    }

    /// Structural value equality, decided on the models.
    pub fn equals(&self, other: &Value) -> (r: bool)
        ensures
            r == val_eq(self@, other@),
        decreases *self,
    {
        broadcast use lemma_seq_value_model_len, lemma_seq_value_model_index, lemma_pair_value_model_len, lemma_pair_value_model_index;

        match (self, other) {
            (Value::Important, Value::Important) => true,
            (Value::True, Value::True) => true,
            (Value::False, Value::False) => true,
            (Value::Null, Value::Null) => true,
            (Value::Dimension(n1, u1), Value::Dimension(n2, u2)) => {
                n1.same_value_as(n2) && *u1 == *u2
            },
            (Value::List(v1, s1, b1), Value::List(v2, s2, b2)) => {
                if *s1 != *s2 || *b1 != *b2 || v1.len() != v2.len() {
                    proof {
                        lemma_seq_val_eq_char(seq_value_model(v1@), seq_value_model(v2@));
                    }
                    return false;
                }
                let mut i: usize = 0;
                #[verifier::loop_isolation(false)]
                while i < v1.len()
                    invariant
                        i <= v1@.len(),
                        forall|j: int|
                            0 <= j < i ==> val_eq(
                                value_model(#[trigger] v1@[j]),
                                value_model(v2@[j]),
                            ),
                    decreases v1@.len() - i,
                {
                    if !v1[i].equals(&v2[i]) {
                        proof {
                            assert(!val_eq(
                                seq_value_model(v1@)[i as int],
                                seq_value_model(v2@)[i as int],
                            ));
                            lemma_seq_val_eq_char(seq_value_model(v1@), seq_value_model(v2@));
                        }
                        return false;
                    }
                    i = i + 1;
                }
                proof {
                    assert forall|j: int|
                        0 <= j < seq_value_model(v1@).len() implies #[trigger] val_eq(
                        seq_value_model(v1@)[j],
                        seq_value_model(v2@)[j],
                    ) by {}
                    lemma_seq_val_eq_char(seq_value_model(v1@), seq_value_model(v2@));
                }
                true
            },
            (Value::Color(c1), Value::Color(c2)) => c1.same_value_as(c2),
            (Value::BinaryOp(l1, o1, r1), Value::BinaryOp(l2, o2, r2)) => {
                (**l1).equals(&**l2) && *o1 == *o2 && (**r1).equals(&**r2)
            },
            (Value::Paren(i1), Value::Paren(i2)) => (**i1).equals(&**i2),
            (Value::Ident(s1, q1), Value::Ident(s2, q2)) => crate::strutil::str_eq(
                s1.as_str(),
                s2.as_str(),
            ) && *q1 == *q2,
            (Value::SassMap(p1), Value::SassMap(p2)) => {
                if p1.len() != p2.len() {
                    proof {
                        lemma_pair_val_eq_char(pair_value_model(p1@), pair_value_model(p2@));
                    }
                    return false;
                }
                let mut i: usize = 0;
                #[verifier::loop_isolation(false)]
                while i < p1.len()
                    invariant
                        i <= p1@.len(),
                        forall|j: int|
                            0 <= j < i ==> val_eq(
                                value_model(#[trigger] p1@[j].0),
                                value_model(p2@[j].0),
                            ) && val_eq(value_model(p1@[j].1), value_model(p2@[j].1)),
                    decreases p1@.len() - i,
                {
                    let keys_differ = !p1[i].0.equals(&p2[i].0);
                    let vals_differ = !p1[i].1.equals(&p2[i].1);
                    if keys_differ || vals_differ {
                        proof {
                            assert(pair_value_model(p1@)[i as int] == (
                                value_model(p1@[i as int].0),
                                value_model(p1@[i as int].1),
                            ));
                            assert(pair_value_model(p2@)[i as int] == (
                                value_model(p2@[i as int].0),
                                value_model(p2@[i as int].1),
                            ));
                            assert(!pair_entry_eq(
                                pair_value_model(p1@)[i as int],
                                pair_value_model(p2@)[i as int],
                            ));
                            lemma_pair_val_eq_char(pair_value_model(p1@), pair_value_model(p2@));
                        }
                        return false;
                    }
                    i = i + 1;
                }
                proof {
                    assert forall|j: int|
                        0 <= j < pair_value_model(p1@).len() implies #[trigger] pair_entry_eq(
                        pair_value_model(p1@)[j],
                        pair_value_model(p2@)[j],
                    ) by {
                        assert(pair_value_model(p1@)[j] == (
                            value_model(p1@[j].0),
                            value_model(p1@[j].1),
                        ));
                        assert(pair_value_model(p2@)[j] == (
                            value_model(p2@[j].0),
                            value_model(p2@[j].1),
                        ));
                    }
                    lemma_pair_val_eq_char(pair_value_model(p1@), pair_value_model(p2@));
                }
                true
            },
            (Value::ArgList(v1), Value::ArgList(v2)) => {
                if v1.len() != v2.len() {
                    proof {
                        lemma_seq_val_eq_char(seq_value_model(v1@), seq_value_model(v2@));
                    }
                    return false;
                }
                let mut i: usize = 0;
                #[verifier::loop_isolation(false)]
                while i < v1.len()
                    invariant
                        i <= v1@.len(),
                        forall|j: int|
                            0 <= j < i ==> val_eq(
                                value_model(#[trigger] v1@[j]),
                                value_model(v2@[j]),
                            ),
                    decreases v1@.len() - i,
                {
                    if !v1[i].equals(&v2[i]) {
                        proof {
                            assert(!val_eq(
                                seq_value_model(v1@)[i as int],
                                seq_value_model(v2@)[i as int],
                            ));
                            lemma_seq_val_eq_char(seq_value_model(v1@), seq_value_model(v2@));
                        }
                        return false;
                    }
                    i = i + 1;
                }
                proof {
                    assert forall|j: int|
                        0 <= j < seq_value_model(v1@).len() implies #[trigger] val_eq(
                        seq_value_model(v1@)[j],
                        seq_value_model(v2@)[j],
                    ) by {}
                    lemma_seq_val_eq_char(seq_value_model(v1@), seq_value_model(v2@));
                }
                true
            },
            _ => {
                proof {
                    lemma_value_model_variant(*self);
                    lemma_value_model_variant(*other);
                }
                false
            },
        }
    }

    /// Strips quotes: a quoted string becomes unquoted; every other
    /// value, lists included, comes back unchanged.
    pub open spec fn spec_unquote(m: ValueModel) -> ValueModel {
        match m {
            ValueModel::Ident(s, _) => ValueModel::Ident(s, QuoteKind::Unquoted),
            other => other,
        }
    }

    pub fn unquote(&self) -> (r: Value)
        ensures
            r@ == Value::spec_unquote(self@),
    {
        match self {
            Value::Ident(s, _) => Value::Ident(s.clone(), QuoteKind::Unquoted),
            other => other.clone_value(),
        }
    }

    /// A copy whose model is the same as this value's.
    pub fn clone_value(&self) -> (r: Value)
        ensures
            r@ == self@,
        decreases *self,
    {
        broadcast use lemma_seq_value_model_len, lemma_seq_value_model_index, lemma_pair_value_model_len, lemma_pair_value_model_index;

        match self {
            Value::Important => Value::Important,
            Value::True => Value::True,
            Value::False => Value::False,
            Value::Null => Value::Null,
            Value::Dimension(n, u) => Value::Dimension(*n, *u),
            Value::List(items, sep, br) => {
                let mut out: Vec<Value> = Vec::new();
                let mut i: usize = 0;
                #[verifier::loop_isolation(false)]
                while i < items.len()
                    invariant
                        i <= items@.len(),
                        out@.len() == i,
                        forall|j: int|
                            0 <= j < i ==> value_model(#[trigger] out@[j]) == value_model(
                                items@[j],
                            ),
                    decreases items@.len() - i,
                {
                    out.push(items[i].clone_value());
                    i = i + 1;
                }
                proof {
                    assert(seq_value_model(out@) =~= seq_value_model(items@));
                }
                Value::List(out, *sep, *br)
            },
            Value::Color(c) => Value::Color(*c),
            Value::BinaryOp(l, op, r) => Value::BinaryOp(
                Box::new((**l).clone_value()),
                *op,
                Box::new((**r).clone_value()),
            ),
            Value::Paren(inner) => Value::Paren(Box::new((**inner).clone_value())),
            Value::Ident(s, q) => Value::Ident(s.clone(), *q),
            Value::SassMap(pairs) => {
                let mut out: Vec<(Value, Value)> = Vec::new();
                let mut i: usize = 0;
                #[verifier::loop_isolation(false)]
                while i < pairs.len()
                    invariant
                        i <= pairs@.len(),
                        out@.len() == i,
                        forall|j: int|
                            0 <= j < i ==> value_model(#[trigger] out@[j].0) == value_model(
                                pairs@[j].0,
                            ) && value_model(out@[j].1) == value_model(pairs@[j].1),
                    decreases pairs@.len() - i,
                {
                    let k = pairs[i].0.clone_value();
                    let v = pairs[i].1.clone_value();
                    out.push((k, v));
                    i = i + 1;
                }
                proof {
                    assert(pair_value_model(out@) =~= pair_value_model(pairs@));
                }
                Value::SassMap(out)
            },
            Value::ArgList(items) => {
                let mut out: Vec<Value> = Vec::new();
                let mut i: usize = 0;
                #[verifier::loop_isolation(false)]
                while i < items.len()
                    invariant
                        i <= items@.len(),
                        out@.len() == i,
                        forall|j: int|
                            0 <= j < i ==> value_model(#[trigger] out@[j]) == value_model(
                                items@[j],
                            ),
                    decreases items@.len() - i,
                {
                    out.push(items[i].clone_value());
                    i = i + 1;
                }
                proof {
                    assert(seq_value_model(out@) =~= seq_value_model(items@));
                }
                Value::ArgList(out)
            },
        }
    }

    /// The label the type-of function reports.
    pub open spec fn spec_type_of(m: ValueModel) -> Seq<char>
        decreases m,
    {
        match m {
            ValueModel::Important => "string"@,
            ValueModel::True => "bool"@,
            ValueModel::False => "bool"@,
            ValueModel::Null => "null"@,
            ValueModel::Dimension(_, _) => "number"@,
            ValueModel::List(_, _, _) => "list"@,
            ValueModel::Color(_) => "color"@,
            ValueModel::BinaryOp(_, _, _) => "string"@,
            ValueModel::Paren(inner) => Value::spec_type_of(*inner),
            ValueModel::Ident(_, _) => "string"@,
            ValueModel::SassMap(_) => "map"@,
            ValueModel::ArgList(_) => "arglist"@,
        }
    }

    pub fn type_of(&self) -> (r: &'static str)
        ensures
            r@ == Value::spec_type_of(self@),
        decreases *self,
    {
        match self {
            Value::Important => "string",
            Value::True => "bool",
            Value::False => "bool",
            Value::Null => "null",
            Value::Dimension(_, _) => "number",
            Value::List(_, _, _) => "list",
            Value::Color(_) => "color",
            Value::BinaryOp(_, _, _) => "string",
            Value::Paren(inner) => (**inner).type_of(),
            Value::Ident(_, _) => "string",
            Value::SassMap(_) => "map",
            Value::ArgList(_) => "arglist",
        }
    }
}

/// The label of a type is always one of the fixed set.
pub proof fn lemma_type_of_fixed_labels(m: ValueModel)
    ensures
        Value::spec_type_of(m) == "number"@ || Value::spec_type_of(m) == "string"@
            || Value::spec_type_of(m) == "color"@ || Value::spec_type_of(m) == "list"@
            || Value::spec_type_of(m) == "map"@ || Value::spec_type_of(m) == "bool"@
            || Value::spec_type_of(m) == "null"@ || Value::spec_type_of(m) == "arglist"@,
    decreases m,
{
    match m {
        ValueModel::Paren(inner) => {
            lemma_type_of_fixed_labels(*inner);
        },
        _ => {},
    }
}

} // verus!
