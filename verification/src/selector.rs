//! The selector model: simple, compound and complex selectors, their
//! mathematical models, and the compound-level operations that parent
//! resolution, unification and the superselector check build on.

use vstd::prelude::*;
use crate::strutil::str_eq;

verus! {

/// How an attribute selector matches its value.
#[derive(Clone, Copy, Debug, PartialEq, Eq, Structural)]
pub enum AttributeKind {
    /// The attribute exists.
    Any,
    /// Exact equality.
    Equals,
    /// Whitespace-separated list membership.
    InList,
    /// Exact or followed by a hyphen.
    BeginsWithHyphenOrExact,
    StartsWith,
    EndsWith,
    Contains,
}

/// An attribute selector.
#[derive(Debug)]
pub struct Attribute {
    pub kind: AttributeKind,
    pub attr: String,
    pub value: String,
    pub case_sensitive: bool,
}

/// The model of an attribute selector.
pub struct AttributeModel {
    pub kind: AttributeKind,
    pub attr: Seq<char>,
    pub value: Seq<char>,
    pub case_sensitive: bool,
}

impl View for Attribute {
    type V = AttributeModel;

    open spec fn view(&self) -> AttributeModel {
        AttributeModel {
            kind: self.kind,
            attr: self.attr@,
            value: self.value@,
            case_sensitive: self.case_sensitive,
        }
    }
}

/// One simple selector, matching a single aspect of one element. The
/// parent selector carries an optional suffix, written directly after
/// the ampersand; an empty suffix is a bare parent selector.
#[derive(Debug)]
pub enum SimpleSelector {
    Parent(String),
    Type(String),
    Id(String),
    Class(String),
    Attribute(Attribute),
    Pseudo { name: String, is_element: bool, arg: String },
    Universal,
    Placeholder(String),
}

/// The model of a simple selector.
pub enum SimpleModel {
    Parent(Seq<char>),
    Type(Seq<char>),
    Id(Seq<char>),
    Class(Seq<char>),
    Attribute(AttributeModel),
    Pseudo { name: Seq<char>, is_element: bool, arg: Seq<char> },
    Universal,
    Placeholder(Seq<char>),
}

impl View for SimpleSelector {
    type V = SimpleModel;

    open spec fn view(&self) -> SimpleModel {
        match self {
            SimpleSelector::Parent(s) => SimpleModel::Parent(s@),
            SimpleSelector::Type(s) => SimpleModel::Type(s@),
            SimpleSelector::Id(s) => SimpleModel::Id(s@),
            SimpleSelector::Class(s) => SimpleModel::Class(s@),
            SimpleSelector::Attribute(a) => SimpleModel::Attribute(a@),
            SimpleSelector::Pseudo { name, is_element, arg } => SimpleModel::Pseudo {
                name: name@,
                is_element: *is_element,
                arg: arg@,
            },
            SimpleSelector::Universal => SimpleModel::Universal,
            SimpleSelector::Placeholder(s) => SimpleModel::Placeholder(s@),
        }
    }
}

impl SimpleSelector {
    /// A copy with the same model.
    pub fn clone_simple(&self) -> (r: SimpleSelector)
        ensures
            r@ == self@,
    {
        match self {
            SimpleSelector::Parent(s) => SimpleSelector::Parent(s.clone()),
            SimpleSelector::Type(s) => SimpleSelector::Type(s.clone()),
            SimpleSelector::Id(s) => SimpleSelector::Id(s.clone()),
            SimpleSelector::Class(s) => SimpleSelector::Class(s.clone()),
            SimpleSelector::Attribute(a) => SimpleSelector::Attribute(
                Attribute {
                    kind: a.kind,
                    attr: a.attr.clone(),
                    value: a.value.clone(),
                    case_sensitive: a.case_sensitive,
                },
            ),
            SimpleSelector::Pseudo { name, is_element, arg } => SimpleSelector::Pseudo {
                name: name.clone(),
                is_element: *is_element,
                arg: arg.clone(),
            },
            SimpleSelector::Universal => SimpleSelector::Universal,
            SimpleSelector::Placeholder(s) => SimpleSelector::Placeholder(s.clone()),
        }
    }

    /// Whether this is the parent selector.
    pub fn is_parent(&self) -> (r: bool)
        ensures
            r == (self@ is Parent),
    {
        matches!(self, SimpleSelector::Parent(_))
    }

    /// Model equality, decided.
    pub fn eq_simple(&self, other: &SimpleSelector) -> (r: bool)
        ensures
            r == (self@ == other@),
    {
        match (self, other) {
            (SimpleSelector::Parent(a), SimpleSelector::Parent(b)) => str_eq(
                a.as_str(),
                b.as_str(),
            ),
            (SimpleSelector::Type(a), SimpleSelector::Type(b)) => str_eq(a.as_str(), b.as_str()),
            (SimpleSelector::Id(a), SimpleSelector::Id(b)) => str_eq(a.as_str(), b.as_str()),
            (SimpleSelector::Class(a), SimpleSelector::Class(b)) => str_eq(a.as_str(), b.as_str()),
            (SimpleSelector::Attribute(a), SimpleSelector::Attribute(b)) => {
                a.kind == b.kind && str_eq(a.attr.as_str(), b.attr.as_str()) && str_eq(
                    a.value.as_str(),
                    b.value.as_str(),
                ) && a.case_sensitive == b.case_sensitive
            },
            (
                SimpleSelector::Pseudo { name: n1, is_element: e1, arg: a1 },
                SimpleSelector::Pseudo { name: n2, is_element: e2, arg: a2 },
            ) => {
                str_eq(n1.as_str(), n2.as_str()) && e1 == e2 && str_eq(a1.as_str(), a2.as_str())
            },
            (SimpleSelector::Universal, SimpleSelector::Universal) => true,
            (SimpleSelector::Placeholder(a), SimpleSelector::Placeholder(b)) => str_eq(
                a.as_str(),
                b.as_str(),
            ),
            _ => false,
        }
    }
}

/// A combinator between two compound selectors; the descendant relation
/// is written as plain adjacency and has no explicit combinator.
#[derive(Clone, Copy, Debug, PartialEq, Eq, Structural)]
pub enum Combinator {
    /// `>`
    Child,
    /// `+`
    NextSibling,
    /// `~`
    FollowingSibling,
}

/// A compound selector: a non-empty run of simple selectors matching one
/// element together.
#[derive(Debug)]
pub struct CompoundSelector {
    pub parts: Vec<SimpleSelector>,
}

/// The model of a compound selector.
pub type CompoundModel = Seq<SimpleModel>;

pub open spec fn compound_model(c: CompoundSelector) -> CompoundModel {
    Seq::new(c.parts@.len(), |i: int| c.parts@[i]@)
}

impl View for CompoundSelector {
    type V = CompoundModel;

    open spec fn view(&self) -> CompoundModel {
        compound_model(*self)
    }
}

impl CompoundSelector {
    /// A copy with the same model.
    pub fn clone_compound(&self) -> (r: CompoundSelector)
        ensures
            r@ == self@,
    {
        let mut parts: Vec<SimpleSelector> = Vec::new();
        let mut i: usize = 0;
        #[verifier::loop_isolation(false)]
        while i < self.parts.len()
            invariant
                i <= self.parts@.len(),
                parts@.len() == i,
                forall|j: int| 0 <= j < i ==> #[trigger] parts@[j]@ == self.parts@[j]@,
            decreases self.parts@.len() - i,
        {
            parts.push(self.parts[i].clone_simple());
            i = i + 1;
        }
        let r = CompoundSelector { parts };
        proof {
            assert(r@ =~= self@);
        }
        r
    }

    /// Whether any part is the parent selector.
    pub fn contains_parent(&self) -> (r: bool)
        ensures
            r == compound_has_parent(self@),
    {
        let mut i: usize = 0;
        #[verifier::loop_isolation(false)]
        while i < self.parts.len()
            invariant
                i <= self.parts@.len(),
                forall|j: int| 0 <= j < i ==> !(#[trigger] self@[j] is Parent),
            decreases self.parts@.len() - i,
        {
            if self.parts[i].is_parent() {
                proof {
                    assert(self@[i as int] is Parent);
                }
                return true;
            }
            i = i + 1;
        }
        false
    }
}

/// Whether a compound holds the parent selector.
pub open spec fn compound_has_parent(c: CompoundModel) -> bool {
    exists|i: int| 0 <= i < c.len() && c[i] is Parent
}

/// Whether a compound holds a simple selector.
pub open spec fn compound_contains(c: CompoundModel, s: SimpleModel) -> bool {
    exists|i: int| 0 <= i < c.len() && c[i] == s
}

/// One compound is a superselector of another when its constraints are a
/// subset of the other's.
pub open spec fn compound_is_superselector(a: CompoundModel, b: CompoundModel) -> bool {
    forall|i: int| 0 <= i < a.len() ==> compound_contains(b, #[trigger] a[i])
}

/// Whether a compound holds a simple selector, decided.
pub fn compound_contains_exec(parts: &Vec<SimpleSelector>, s: &SimpleSelector) -> (r: bool)
    ensures
        r == compound_contains(Seq::new(parts@.len(), |i: int| parts@[i]@), s@),
{
    let ghost m: CompoundModel = Seq::new(parts@.len(), |i: int| parts@[i]@);
    let mut i: usize = 0;
    #[verifier::loop_isolation(false)]
    while i < parts.len()
        invariant
            i <= parts@.len(),
            forall|j: int| 0 <= j < i ==> #[trigger] m[j] != s@,
        decreases parts@.len() - i,
    {
        if parts[i].eq_simple(s) {
            proof {
                assert(m[i as int] == s@);
            }
            return true;
        }
        i = i + 1;
    }
    false
}

/// The name of the type selector a compound holds, if any.
pub open spec fn compound_type_name(c: CompoundModel) -> Option<Seq<char>> {
    if exists|i: int| 0 <= i < c.len() && c[i] is Type {
        let i = choose|i: int| 0 <= i < c.len() && c[i] is Type;
        Some(c[i]->Type_0)
    } else {
        None
    }
}

/// Merging two compound selectors: the parts of the first, then each part
/// of the second that is not already there. Two different type selectors
/// cannot match one element, so they refuse to merge.
pub open spec fn spec_unify_compound(acc: CompoundModel, rest: CompoundModel) -> Option<
    CompoundModel,
>
    decreases rest.len(),
{
    if rest.len() == 0 {
        Some(acc)
    } else {
        let h = rest[0];
        let tail = rest.subrange(1, rest.len() as int);
        if compound_contains(acc, h) {
            spec_unify_compound(acc, tail)
        } else if h is Type && (exists|i: int|
            0 <= i < acc.len() && acc[i] is Type && acc[i] != h) {
            None
        } else {
            spec_unify_compound(acc.push(h), tail)
        }
    }
}

/// Merging keeps everything that was already collected, and everything
/// merged in: the merge is a subselector of both sides.
pub proof fn lemma_unify_compound_super(acc: CompoundModel, rest: CompoundModel)
    ensures
        spec_unify_compound(acc, rest) matches Some(u) ==> compound_is_superselector(acc, u)
            && compound_is_superselector(rest, u),
    decreases rest.len(),
{
    if rest.len() == 0 {
        match spec_unify_compound(acc, rest) {
            Some(u) => {
                assert forall|i: int| 0 <= i < acc.len() implies compound_contains(
                    u,
                    #[trigger] acc[i],
                ) by {}
            },
            None => {},
        }
    } else {
        let h = rest[0];
        let tail = rest.subrange(1, rest.len() as int);
        if compound_contains(acc, h) {
            lemma_unify_compound_super(acc, tail);
            match spec_unify_compound(acc, tail) {
                Some(u) => {
                    assert forall|i: int| 0 <= i < rest.len() implies compound_contains(
                        u,
                        #[trigger] rest[i],
                    ) by {
                        if i == 0 {
                            let w = choose|w: int| 0 <= w < acc.len() && acc[w] == h;
                            assert(compound_contains(u, acc[w]));
                        } else {
                            assert(tail[i - 1] == rest[i]);
                        }
                    }
                },
                None => {},
            }
        } else if h is Type && (exists|i: int|
            0 <= i < acc.len() && acc[i] is Type && acc[i] != h) {
        } else {
            lemma_unify_compound_super(acc.push(h), tail);
            match spec_unify_compound(acc.push(h), tail) {
                Some(u) => {
                    assert forall|i: int| 0 <= i < acc.len() implies compound_contains(
                        u,
                        #[trigger] acc[i],
                    ) by {
                        assert(acc.push(h)[i] == acc[i]);
                        assert(compound_contains(u, acc.push(h)[i]));
                    }
                    assert forall|i: int| 0 <= i < rest.len() implies compound_contains(
                        u,
                        #[trigger] rest[i],
                    ) by {
                        if i == 0 {
                            assert(acc.push(h)[acc.len() as int] == h);
                            assert(compound_contains(u, h));
                        } else {
                            assert(tail[i - 1] == rest[i]);
                        }
                    }
                },
                None => {},
            }
        }
    }
}

/// Merges two compound selectors, as the model describes.
pub fn unify_compound(a: &CompoundSelector, b: &CompoundSelector) -> (res: Option<CompoundSelector>)
    ensures
        match spec_unify_compound(a@, b@) {
            Some(u) => res matches Some(c) && c@ == u,
            None => res is None,
        },
{
    let mut out: Vec<SimpleSelector> = Vec::new();
    let mut i: usize = 0;
    #[verifier::loop_isolation(false)]
    while i < a.parts.len()
        invariant
            i <= a.parts@.len(),
            out@.len() == i,
            forall|j: int| 0 <= j < i ==> #[trigger] out@[j]@ == a@[j],
        decreases a.parts@.len() - i,
    {
        out.push(a.parts[i].clone_simple());
        i = i + 1;
    }
    proof {
        assert(Seq::new(out@.len(), |j: int| out@[j]@) =~= a@);
        assert(b@.subrange(0, b@.len() as int) =~= b@);
    }
    let mut k: usize = 0;
    #[verifier::loop_isolation(false)]
    while k < b.parts.len()
        invariant
            k <= b.parts@.len(),
            spec_unify_compound(a@, b@) == spec_unify_compound(
                Seq::new(out@.len(), |j: int| out@[j]@),
                b@.subrange(k as int, b@.len() as int),
            ),
        decreases b.parts@.len() - k,
    {
        let ghost accm: CompoundModel = Seq::new(out@.len(), |j: int| out@[j]@);
        let ghost restm: CompoundModel = b@.subrange(k as int, b@.len() as int);
        proof {
            assert(restm[0] == b@[k as int]);
            assert(restm.subrange(1, restm.len() as int) =~= b@.subrange(
                k + 1,
                b@.len() as int,
            ));
        }
        let h = &b.parts[k];
        if compound_contains_exec(&out, h) {
        } else {
            let is_type: bool = matches!(h, SimpleSelector::Type(_));
            if is_type {
                let mut conflict: bool = false;
                let mut j: usize = 0;
                #[verifier::loop_isolation(false)]
                while j < out.len()
                    invariant
                        j <= out@.len(),
                        conflict == exists|l: int|
                            0 <= l < j && #[trigger] accm[l] is Type && accm[l] != h@,
                        accm == Seq::new(out@.len(), |jj: int| out@[jj]@),
                        out@.len() == accm.len(),
                    decreases out@.len() - j,
                {
                    if matches!(&out[j], SimpleSelector::Type(_)) && !out[j].eq_simple(h) {
                        proof {
                            assert(accm[j as int] is Type && accm[j as int] != h@);
                        }
                        conflict = true;
                    }
                    j = j + 1;
                }
                if conflict {
                    return None;
                }
            }
            let ghost accm0: CompoundModel = accm;
            out.push(h.clone_simple());
            proof {
                assert(Seq::new(out@.len(), |jj: int| out@[jj]@) =~= accm0.push(h@));
            }
        }
        k = k + 1;
    }
    proof {
        assert(b@.subrange(b@.len() as int, b@.len() as int) =~= Seq::<SimpleModel>::empty());
    }
    let r = CompoundSelector { parts: out };
    proof {
        assert(r@ =~= Seq::new(r.parts@.len(), |j: int| r.parts@[j]@));
    }
    Some(r)
}

} // verus!
