//! Complex selectors and selector lists: parent resolution, unification,
//! the superselector check, and serialization.

use vstd::prelude::*;
use crate::common::Brackets;
use crate::selector::{
    compound_is_superselector, compound_model, spec_unify_compound, unify_compound, Combinator,
    CompoundModel, CompoundSelector, SimpleModel, SimpleSelector,
};
use crate::value::{seq_value_model, value_model, ListSeparator, QuoteKind, Value, ValueModel};

verus! {

/// One link of a complex selector: a compound selector, or an explicit
/// combinator; two adjacent compounds are in the descendant relation.
#[derive(Debug)]
pub enum ComplexSelectorComponent {
    Compound(CompoundSelector),
    Combinator(Combinator),
}

/// The model of a complex selector component.
pub enum ComponentModel {
    Compound(CompoundModel),
    Combinator(Combinator),
}

impl View for ComplexSelectorComponent {
    type V = ComponentModel;

    open spec fn view(&self) -> ComponentModel {
        match self {
            ComplexSelectorComponent::Compound(c) => ComponentModel::Compound(compound_model(*c)),
            ComplexSelectorComponent::Combinator(c) => ComponentModel::Combinator(*c),
        }
    }
}

impl ComplexSelectorComponent {
    /// A copy with the same model.
    pub fn clone_component(&self) -> (r: ComplexSelectorComponent)
        ensures
            r@ == self@,
    {
        match self {
            ComplexSelectorComponent::Compound(c) => ComplexSelectorComponent::Compound(
                c.clone_compound(),
            ),
            ComplexSelectorComponent::Combinator(c) => ComplexSelectorComponent::Combinator(*c),
        }
    }

    /// Whether this component is a compound selector.
    pub fn is_compound(&self) -> (r: bool)
        ensures
            r == (self@ is Compound),
    {
        matches!(self, ComplexSelectorComponent::Compound(_))
    }
}

/// A complex selector: compounds and combinators in sequence, plus a
/// line-break hint used when the list prints.
#[derive(Debug)]
pub struct ComplexSelector {
    pub components: Vec<ComplexSelectorComponent>,
    pub line_break: bool,
}

/// The model of a complex selector.
pub struct ComplexModel {
    pub components: Seq<ComponentModel>,
    pub line_break: bool,
}

pub open spec fn complex_model(c: ComplexSelector) -> ComplexModel {
    ComplexModel {
        components: Seq::new(c.components@.len(), |i: int| c.components@[i]@),
        line_break: c.line_break,
    }
}

impl View for ComplexSelector {
    type V = ComplexModel;

    open spec fn view(&self) -> ComplexModel {
        complex_model(*self)
    }
}

impl ComplexSelector {
    /// A copy with the same model.
    pub fn clone_complex(&self) -> (r: ComplexSelector)
        ensures
            r@ == self@,
    {
        let mut components: Vec<ComplexSelectorComponent> = Vec::new();
        let mut i: usize = 0;
        #[verifier::loop_isolation(false)]
        while i < self.components.len()
            invariant
                i <= self.components@.len(),
                components@.len() == i,
                forall|j: int| 0 <= j < i ==> #[trigger] components@[j]@ == self.components@[j]@,
            decreases self.components@.len() - i,
        {
            components.push(self.components[i].clone_component());
            i = i + 1;
        }
        let r = ComplexSelector { components, line_break: self.line_break };
        proof {
            assert(r@.components =~= self@.components);
        }
        r
    }

    /// Whether any compound holds the parent selector.
    pub fn contains_parent_selector(&self) -> (r: bool)
        ensures
            r == complex_has_parent(self@),
    {
        let mut i: usize = 0;
        #[verifier::loop_isolation(false)]
        while i < self.components.len()
            invariant
                i <= self.components@.len(),
                forall|j: int|
                    0 <= j < i ==> !component_has_parent(#[trigger] self@.components[j]),
            decreases self.components@.len() - i,
        {
            match &self.components[i] {
                ComplexSelectorComponent::Compound(c) => {
                    if c.contains_parent() {
                        proof {
                            assert(component_has_parent(self@.components[i as int]));
                        }
                        return true;
                    }
                },
                ComplexSelectorComponent::Combinator(_) => {},
            }
            i = i + 1;
        }
        false
    }

    /// Whether this complex selector matches nothing visible: it holds a
    /// placeholder selector.
    pub fn is_invisible(&self) -> (r: bool)
        ensures
            r == complex_is_invisible(self@),
    {
        let mut i: usize = 0;
        #[verifier::loop_isolation(false)]
        while i < self.components.len()
            invariant
                i <= self.components@.len(),
                forall|j: int|
                    0 <= j < i ==> !component_has_placeholder(#[trigger] self@.components[j]),
            decreases self.components@.len() - i,
        {
            match &self.components[i] {
                ComplexSelectorComponent::Compound(c) => {
                    let mut k: usize = 0;
                    #[verifier::loop_isolation(false)]
                    while k < c.parts.len()
                        invariant
                            k <= c.parts@.len(),
                            forall|l: int| 0 <= l < k ==> !(#[trigger] c@[l] is Placeholder),
                        decreases c.parts@.len() - k,
                    {
                        if matches!(&c.parts[k], SimpleSelector::Placeholder(_)) {
                            proof {
                                assert(c@[k as int] is Placeholder);
                                assert(component_has_placeholder(self@.components[i as int]));
                            }
                            return true;
                        }
                        k = k + 1;
                    }
                },
                ComplexSelectorComponent::Combinator(_) => {},
            }
            i = i + 1;
        }
        false
    }
}

/// Whether a component holds the parent selector.
pub open spec fn component_has_parent(c: ComponentModel) -> bool {
    match c {
        ComponentModel::Compound(k) => crate::selector::compound_has_parent(k),
        ComponentModel::Combinator(_) => false,
    }
}

/// Whether a complex selector holds the parent selector.
pub open spec fn complex_has_parent(c: ComplexModel) -> bool {
    exists|i: int| 0 <= i < c.components.len() && component_has_parent(#[trigger] c.components[i])
}

/// Whether a component holds a placeholder selector.
pub open spec fn component_has_placeholder(c: ComponentModel) -> bool {
    match c {
        ComponentModel::Compound(k) => exists|i: int| 0 <= i < k.len() && k[i] is Placeholder,
        ComponentModel::Combinator(_) => false,
    }
}

/// Whether a complex selector holds a placeholder selector.
pub open spec fn complex_is_invisible(c: ComplexModel) -> bool {
    exists|i: int|
        0 <= i < c.components.len() && component_has_placeholder(#[trigger] c.components[i])
}

/// The superselector relation on component sequences, aligned greedily
/// from the tail: the rightmost compounds must contain one another, an
/// explicit combinator must meet the same combinator, and a descendant
/// relation on the super side may skip any amount of the sub side.
pub open spec fn spec_cis(s: Seq<ComponentModel>, t: Seq<ComponentModel>) -> bool
    decreases s.len() + t.len(), 0int,
{
    if s.len() == 0 {
        true
    } else if t.len() == 0 {
        false
    } else {
        match (s.last(), t.last()) {
            (ComponentModel::Compound(sc), ComponentModel::Compound(tc)) => {
                compound_is_superselector(sc, tc) && spec_cis_rest(s.drop_last(), t.drop_last())
            },
            _ => false,
        }
    }
}

/// Alignment of what stands before two matched compounds.
pub open spec fn spec_cis_rest(s1: Seq<ComponentModel>, t1: Seq<ComponentModel>) -> bool
    decreases s1.len() + t1.len(), 1int,
{
    if s1.len() == 0 {
        true
    } else {
        match s1.last() {
            ComponentModel::Combinator(c1) => {
                t1.len() > 0 && match t1.last() {
                    ComponentModel::Combinator(c2) => c1 == c2 && spec_cis(
                        s1.drop_last(),
                        t1.drop_last(),
                    ),
                    ComponentModel::Compound(_) => false,
                }
            },
            ComponentModel::Compound(_) => exists|i: int|
                0 < i <= t1.len() && (#[trigger] t1.subrange(0, i)).last() is Compound && spec_cis(
                    s1,
                    t1.subrange(0, i),
                ),
        }
    }
}

/// The superselector relation, decided, on prefixes of two component
/// vectors.
pub fn cis_exec(
    s: &Vec<ComplexSelectorComponent>,
    si: usize,
    t: &Vec<ComplexSelectorComponent>,
    ti: usize,
) -> (r: bool)
    requires
        si <= s@.len(),
        ti <= t@.len(),
    ensures
        r == spec_cis(components_model(s@).subrange(0, si as int), components_model(t@).subrange(0, ti as int)),
    decreases si + ti, 0int,
{
    let ghost sm = components_model(s@).subrange(0, si as int);
    let ghost tm = components_model(t@).subrange(0, ti as int);
    if si == 0 {
        return true;
    }
    if ti == 0 {
        return false;
    }
    match (&s[si - 1], &t[ti - 1]) {
        (ComplexSelectorComponent::Compound(sc), ComplexSelectorComponent::Compound(tc)) => {
            proof {
                assert(sm.last() == components_model(s@)[si - 1]);
                assert(tm.last() == components_model(t@)[ti - 1]);
            }
            if !compound_super_exec(sc, tc) {
                return false;
            }
            let rest = cis_rest_exec(s, si - 1, t, ti - 1);
            proof {
                assert(sm.drop_last() =~= components_model(s@).subrange(0, si - 1));
                assert(tm.drop_last() =~= components_model(t@).subrange(0, ti - 1));
            }
            rest
        },
        _ => {
            proof {
                assert(sm.last() == components_model(s@)[si - 1]);
                assert(tm.last() == components_model(t@)[ti - 1]);
            }
            false
        },
    }
}

/// Alignment of what stands before two matched compounds, decided.
pub fn cis_rest_exec(
    s: &Vec<ComplexSelectorComponent>,
    si: usize,
    t: &Vec<ComplexSelectorComponent>,
    ti: usize,
) -> (r: bool)
    requires
        si <= s@.len(),
        ti <= t@.len(),
    ensures
        r == spec_cis_rest(
            components_model(s@).subrange(0, si as int),
            components_model(t@).subrange(0, ti as int),
        ),
    decreases si + ti, 1int,
{
    let ghost sm = components_model(s@).subrange(0, si as int);
    let ghost tm = components_model(t@).subrange(0, ti as int);
    if si == 0 {
        return true;
    }
    match &s[si - 1] {
        ComplexSelectorComponent::Combinator(c1) => {
            proof {
                assert(sm.last() == components_model(s@)[si - 1]);
            }
            if ti == 0 {
                return false;
            }
            match &t[ti - 1] {
                ComplexSelectorComponent::Combinator(c2) => {
                    proof {
                        assert(tm.last() == components_model(t@)[ti - 1]);
                    }
                    if c1 != c2 {
                        return false;
                    }
                    let r = cis_exec(s, si - 1, t, ti - 1);
                    proof {
                        assert(sm.drop_last() =~= components_model(s@).subrange(0, si - 1));
                        assert(tm.drop_last() =~= components_model(t@).subrange(0, ti - 1));
                    }
                    r
                },
                ComplexSelectorComponent::Compound(_) => {
                    proof {
                        assert(tm.last() == components_model(t@)[ti - 1]);
                    }
                    false
                },
            }
        },
        ComplexSelectorComponent::Compound(_) => {
            proof {
                assert(sm.last() == components_model(s@)[si - 1]);
            }
            let mut i: usize = ti;
            #[verifier::loop_isolation(false)]
            while i > 0
                invariant
                    i <= ti,
                    forall|j: int|
                        i < j <= ti ==> !((#[trigger] tm.subrange(0, j)).last() is Compound
                            && spec_cis(sm, tm.subrange(0, j))),
                decreases i,
            {
                let ends_compound: bool = matches!(&t[i - 1], ComplexSelectorComponent::Compound(_));
                proof {
                    assert(tm.subrange(0, i as int).last() == components_model(t@)[i - 1]);
                }
                if ends_compound {
                    let hit = cis_exec(s, si, t, i);
                    proof {
                        assert(components_model(t@).subrange(0, i as int) =~= tm.subrange(
                            0,
                            i as int,
                        ));
                        assert(components_model(s@).subrange(0, si as int) =~= sm);
                    }
                    if hit {
                        return true;
                    }
                }
                i = i - 1;
            }
            false
        },
    }
}

/// The models of a sequence of components.
pub open spec fn components_model(s: Seq<ComplexSelectorComponent>) -> Seq<ComponentModel> {
    Seq::new(s.len(), |i: int| s[i]@)
}

/// One compound is decided to contain another's constraints.
pub fn compound_super_exec(a: &CompoundSelector, b: &CompoundSelector) -> (r: bool)
    ensures
        r == compound_is_superselector(a@, b@),
{
    let mut i: usize = 0;
    #[verifier::loop_isolation(false)]
    while i < a.parts.len()
        invariant
            i <= a.parts@.len(),
            forall|j: int|
                0 <= j < i ==> crate::selector::compound_contains(b@, #[trigger] a@[j]),
        decreases a.parts@.len() - i,
    {
        if !crate::selector::compound_contains_exec(&b.parts, &a.parts[i]) {
            proof {
                assert(Seq::new(b.parts@.len(), |j: int| b.parts@[j]@) =~= b@);
                assert(!crate::selector::compound_contains(b@, a@[i as int]));
            }
            return false;
        }
        proof {
            assert(Seq::new(b.parts@.len(), |j: int| b.parts@[j]@) =~= b@);
        }
        i = i + 1;
    }
    true
}

/// One complex selector is a superselector of another.
pub open spec fn complex_is_superselector(a: ComplexModel, b: ComplexModel) -> bool {
    spec_cis(a.components, b.components)
}

/// No combinator stands first or follows another combinator.
pub open spec fn wf_prefix(s: Seq<ComponentModel>) -> bool {
    forall|i: int|
        0 <= i < s.len() && (#[trigger] s[i]) is Combinator ==> i > 0 && s[i - 1] is Compound
}

/// A well-formed complex selector body: no stray combinators, and the
/// sequence ends with a compound.
pub open spec fn wf_components(s: Seq<ComponentModel>) -> bool {
    wf_prefix(s) && (s.len() > 0 ==> s.last() is Compound)
}

/// Unifying two complex selectors: the rightmost compounds merge, and
/// what stands before them merges combinator by combinator; a descendant
/// relation is absorbed by any explicit combinator, and two different
/// explicit combinators refuse to merge.
pub open spec fn spec_unify_complex(x: Seq<ComponentModel>, y: Seq<ComponentModel>) -> Option<
    Seq<ComponentModel>,
>
    decreases x.len() + y.len(), 0int,
{
    if x.len() == 0 {
        Some(y)
    } else if y.len() == 0 {
        Some(x)
    } else {
        match (x.last(), y.last()) {
            (ComponentModel::Compound(a), ComponentModel::Compound(b)) => {
                match spec_unify_compound(a, b) {
                    Some(u) => match spec_merge_prefix(x.drop_last(), y.drop_last()) {
                        Some(p) => Some(p.push(ComponentModel::Compound(u))),
                        None => None,
                    },
                    None => None,
                }
            },
            _ => None,
        }
    }
}

/// Merging what stands before two matched compounds.
pub open spec fn spec_merge_prefix(x: Seq<ComponentModel>, y: Seq<ComponentModel>) -> Option<
    Seq<ComponentModel>,
>
    decreases x.len() + y.len(), 1int,
{
    if x.len() == 0 {
        Some(y)
    } else if y.len() == 0 {
        Some(x)
    } else {
        match (x.last(), y.last()) {
            (ComponentModel::Combinator(c1), ComponentModel::Combinator(c2)) => {
                if c1 == c2 {
                    match spec_unify_complex(x.drop_last(), y.drop_last()) {
                        Some(p) => Some(p.push(ComponentModel::Combinator(c1))),
                        None => None,
                    }
                } else {
                    None
                }
            },
            (ComponentModel::Combinator(c1), ComponentModel::Compound(_)) => {
                match spec_unify_complex(x.drop_last(), y) {
                    Some(p) => Some(p.push(ComponentModel::Combinator(c1))),
                    None => None,
                }
            },
            (ComponentModel::Compound(_), ComponentModel::Combinator(c2)) => {
                match spec_unify_complex(x, y.drop_last()) {
                    Some(p) => Some(p.push(ComponentModel::Combinator(c2))),
                    None => None,
                }
            },
            (ComponentModel::Compound(_), ComponentModel::Compound(_)) => {
                spec_unify_complex(x, y)
            },
        }
    }
}

/// A copy of the first `n` components.
fn clone_components_prefix(v: &Vec<ComplexSelectorComponent>, n: usize) -> (r: Vec<
    ComplexSelectorComponent,
>)
    requires
        n <= v@.len(),
    ensures
        components_model(r@) == components_model(v@).subrange(0, n as int),
{
    let mut out: Vec<ComplexSelectorComponent> = Vec::new();
    let mut i: usize = 0;
    #[verifier::loop_isolation(false)]
    while i < n
        invariant
            i <= n,
            out@.len() == i,
            forall|j: int| 0 <= j < i ==> #[trigger] out@[j]@ == v@[j]@,
        decreases n - i,
    {
        out.push(v[i].clone_component());
        i = i + 1;
    }
    proof {
        assert(components_model(out@) =~= components_model(v@).subrange(0, n as int));
    }
    out
}

/// Unifies two complex selector prefixes, as the model describes.
pub fn unify_complex_exec(
    x: &Vec<ComplexSelectorComponent>,
    xi: usize,
    y: &Vec<ComplexSelectorComponent>,
    yi: usize,
) -> (res: Option<Vec<ComplexSelectorComponent>>)
    requires
        xi <= x@.len(),
        yi <= y@.len(),
    ensures
        match spec_unify_complex(
            components_model(x@).subrange(0, xi as int),
            components_model(y@).subrange(0, yi as int),
        ) {
            Some(u) => res matches Some(v) && components_model(v@) == u,
            None => res is None,
        },
    decreases xi + yi, 0int,
{
    let ghost xm = components_model(x@).subrange(0, xi as int);
    let ghost ym = components_model(y@).subrange(0, yi as int);
    if xi == 0 {
        let r = clone_components_prefix(y, yi);
        return Some(r);
    }
    if yi == 0 {
        let r = clone_components_prefix(x, xi);
        return Some(r);
    }
    proof {
        assert(xm.last() == components_model(x@)[xi - 1]);
        assert(ym.last() == components_model(y@)[yi - 1]);
    }
    match (&x[xi - 1], &y[yi - 1]) {
        (ComplexSelectorComponent::Compound(a), ComplexSelectorComponent::Compound(b)) => {
            match unify_compound(a, b) {
                Some(u) => {
                    proof {
                        assert(xm.drop_last() =~= components_model(x@).subrange(0, xi - 1));
                        assert(ym.drop_last() =~= components_model(y@).subrange(0, yi - 1));
                    }
                    match merge_prefix_exec(x, xi - 1, y, yi - 1) {
                        Some(mut p) => {
                            let ghost pm = components_model(p@);
                            p.push(ComplexSelectorComponent::Compound(u));
                            proof {
                                assert(components_model(p@) =~= pm.push(
                                    ComponentModel::Compound(u@),
                                ));
                            }
                            Some(p)
                        },
                        None => None,
                    }
                },
                None => None,
            }
        },
        _ => None,
    }
}

/// Merges what stands before two matched compounds, as the model
/// describes.
pub fn merge_prefix_exec(
    x: &Vec<ComplexSelectorComponent>,
    xi: usize,
    y: &Vec<ComplexSelectorComponent>,
    yi: usize,
) -> (res: Option<Vec<ComplexSelectorComponent>>)
    requires
        xi <= x@.len(),
        yi <= y@.len(),
    ensures
        match spec_merge_prefix(
            components_model(x@).subrange(0, xi as int),
            components_model(y@).subrange(0, yi as int),
        ) {
            Some(u) => res matches Some(v) && components_model(v@) == u,
            None => res is None,
        },
    decreases xi + yi, 1int,
{
    let ghost xm = components_model(x@).subrange(0, xi as int);
    let ghost ym = components_model(y@).subrange(0, yi as int);
    if xi == 0 {
        let r = clone_components_prefix(y, yi);
        return Some(r);
    }
    if yi == 0 {
        let r = clone_components_prefix(x, xi);
        return Some(r);
    }
    proof {
        assert(xm.last() == components_model(x@)[xi - 1]);
        assert(ym.last() == components_model(y@)[yi - 1]);
        assert(xm.drop_last() =~= components_model(x@).subrange(0, xi - 1));
        assert(ym.drop_last() =~= components_model(y@).subrange(0, yi - 1));
    }
    match (&x[xi - 1], &y[yi - 1]) {
        (ComplexSelectorComponent::Combinator(c1), ComplexSelectorComponent::Combinator(c2)) => {
            if c1 != c2 {
                return None;
            }
            match unify_complex_exec(x, xi - 1, y, yi - 1) {
                Some(mut p) => {
                    let ghost pm = components_model(p@);
                    let cc: Combinator = *c1;
                    p.push(ComplexSelectorComponent::Combinator(cc));
                    proof {
                        assert(components_model(p@) =~= pm.push(ComponentModel::Combinator(cc)));
                    }
                    Some(p)
                },
                None => None,
            }
        },
        (ComplexSelectorComponent::Combinator(c1), ComplexSelectorComponent::Compound(_)) => {
            match unify_complex_exec(x, xi - 1, y, yi) {
                Some(mut p) => {
                    let ghost pm = components_model(p@);
                    let cc: Combinator = *c1;
                    p.push(ComplexSelectorComponent::Combinator(cc));
                    proof {
                        assert(components_model(p@) =~= pm.push(ComponentModel::Combinator(cc)));
                    }
                    Some(p)
                },
                None => None,
            }
        },
        (ComplexSelectorComponent::Compound(_), ComplexSelectorComponent::Combinator(c2)) => {
            match unify_complex_exec(x, xi, y, yi - 1) {
                Some(mut p) => {
                    let ghost pm = components_model(p@);
                    let cc: Combinator = *c2;
                    p.push(ComplexSelectorComponent::Combinator(cc));
                    proof {
                        assert(components_model(p@) =~= pm.push(ComponentModel::Combinator(cc)));
                    }
                    Some(p)
                },
                None => None,
            }
        },
        (ComplexSelectorComponent::Compound(_), ComplexSelectorComponent::Compound(_)) => {
            unify_complex_exec(x, xi, y, yi)
        },
    }
}


/// Containment of compounds is reflexive.
proof fn lemma_compound_super_refl(a: CompoundModel)
    ensures
        compound_is_superselector(a, a),
{
    assert forall|i: int| 0 <= i < a.len() implies crate::selector::compound_contains(
        a,
        #[trigger] a[i],
    ) by {
        assert(a[i] == a[i]);
    }
}

/// The superselector relation is reflexive on well-formed selectors.
proof fn lemma_cis_refl(s: Seq<ComponentModel>)
    requires
        wf_components(s),
    ensures
        spec_cis(s, s),
    decreases s.len(), 0int,
{
    if s.len() > 0 {
        lemma_compound_super_refl(s.last()->Compound_0);
        assert(wf_prefix(s.drop_last())) by {
            assert(forall|i: int|
                0 <= i < s.drop_last().len() ==> s.drop_last()[i] == s[i]);
        }
        lemma_cis_rest_refl(s.drop_last());
    }
}

/// The prefix alignment is reflexive on well-formed prefixes.
proof fn lemma_cis_rest_refl(s: Seq<ComponentModel>)
    requires
        wf_prefix(s),
    ensures
        spec_cis_rest(s, s),
    decreases s.len(), 1int,
{
    if s.len() > 0 {
        match s.last() {
            ComponentModel::Combinator(c) => {
                assert(s[s.len() - 2] is Compound);
                assert(s.drop_last().last() is Compound);
                assert(wf_prefix(s.drop_last())) by {
                    assert(forall|i: int|
                        0 <= i < s.drop_last().len() ==> s.drop_last()[i] == s[i]);
                }
                lemma_cis_refl(s.drop_last());
            },
            ComponentModel::Compound(_) => {
                assert(s.subrange(0, s.len() as int) =~= s);
                lemma_cis_refl(s);
                assert(0 < s.len() <= s.len() && s.subrange(0, s.len() as int).last() is Compound
                    && spec_cis(s, s.subrange(0, s.len() as int)));
            },
        }
    }
}

/// A unified complex selector is well formed, non-empty when either side
/// is, and each side is a superselector of it.
proof fn lemma_unify_complex_super(x: Seq<ComponentModel>, y: Seq<ComponentModel>)
    requires
        wf_components(x),
        wf_components(y),
    ensures
        spec_unify_complex(x, y) matches Some(u) ==> wf_components(u) && (x.len() > 0 || y.len()
            > 0 ==> u.len() > 0 && u.last() is Compound) && spec_cis(x, u) && spec_cis(y, u),
    decreases x.len() + y.len(), 0int,
{
    if x.len() == 0 {
        lemma_cis_refl(y);
    } else if y.len() == 0 {
        lemma_cis_refl(x);
    } else {
        match (x.last(), y.last()) {
            (ComponentModel::Compound(a), ComponentModel::Compound(b)) => {
                crate::selector::lemma_unify_compound_super(a, b);
                match spec_unify_compound(a, b) {
                    Some(u0) => {
                        assert(wf_prefix(x.drop_last()) && wf_prefix(y.drop_last())) by {
                            assert(forall|i: int|
                                0 <= i < x.drop_last().len() ==> x.drop_last()[i] == x[i]);
                            assert(forall|i: int|
                                0 <= i < y.drop_last().len() ==> y.drop_last()[i] == y[i]);
                        }
                        lemma_merge_prefix_super(x.drop_last(), y.drop_last());
                        match spec_merge_prefix(x.drop_last(), y.drop_last()) {
                            Some(p) => {
                                let u = p.push(ComponentModel::Compound(u0));
                                assert(u.last() == ComponentModel::Compound(u0));
                                assert(wf_components(u)) by {
                                    assert(forall|i: int|
                                        0 <= i < p.len() ==> u[i] == p[i]);
                                }
                                assert(u.drop_last() =~= p);
                                assert(spec_cis(x, u));
                                assert(spec_cis(y, u));
                            },
                            None => {},
                        }
                    },
                    None => {},
                }
            },
            _ => {},
        }
    }
}

/// A merged prefix is well formed and aligns below both inputs.
proof fn lemma_merge_prefix_super(x: Seq<ComponentModel>, y: Seq<ComponentModel>)
    requires
        wf_prefix(x),
        wf_prefix(y),
    ensures
        spec_merge_prefix(x, y) matches Some(p) ==> wf_prefix(p) && spec_cis_rest(x, p)
            && spec_cis_rest(y, p),
    decreases x.len() + y.len(), 1int,
{
    if x.len() == 0 {
        lemma_cis_rest_refl(y);
    } else if y.len() == 0 {
        lemma_cis_rest_refl(x);
    } else {
        let xd = x.drop_last();
        let yd = y.drop_last();
        assert(forall|i: int| 0 <= i < xd.len() ==> xd[i] == x[i]);
        assert(forall|i: int| 0 <= i < yd.len() ==> yd[i] == y[i]);
        assert(wf_prefix(xd));
        assert(wf_prefix(yd));
        match (x.last(), y.last()) {
            (ComponentModel::Combinator(c1), ComponentModel::Combinator(c2)) => {
                if c1 == c2 {
                    assert(x[x.len() - 2] is Compound);
                    assert(y[y.len() - 2] is Compound);
                    assert(xd.len() > 0 && xd.last() is Compound);
                    assert(yd.len() > 0 && yd.last() is Compound);
                    lemma_unify_complex_super(xd, yd);
                    match spec_unify_complex(xd, yd) {
                        Some(p0) => {
                            let p = p0.push(ComponentModel::Combinator(c1));
                            assert(forall|i: int| 0 <= i < p0.len() ==> p[i] == p0[i]);
                            assert(p.last() == ComponentModel::Combinator(c1));
                            assert(p0.len() > 0 && p0.last() is Compound);
                            assert(wf_prefix(p));
                            assert(p.drop_last() =~= p0);
                            assert(spec_cis_rest(x, p));
                            assert(spec_cis_rest(y, p));
                        },
                        None => {},
                    }
                }
            },
            (ComponentModel::Combinator(c1), ComponentModel::Compound(_)) => {
                assert(x[x.len() - 2] is Compound);
                assert(xd.len() > 0 && xd.last() is Compound);
                assert(y.last() is Compound);
                lemma_unify_complex_super(xd, y);
                match spec_unify_complex(xd, y) {
                    Some(p0) => {
                        let p = p0.push(ComponentModel::Combinator(c1));
                        assert(forall|i: int| 0 <= i < p0.len() ==> p[i] == p0[i]);
                        assert(p0.len() > 0 && p0.last() is Compound);
                        assert(wf_prefix(p));
                        assert(p.drop_last() =~= p0);
                        assert(spec_cis_rest(x, p));
                        // the sub side keeps a descendant relation, which may
                        // skip the explicit combinator
                        assert(p.subrange(0, p.len() - 1) =~= p0);
                        assert(0 < p.len() - 1 <= p.len() && p.subrange(0, p.len() - 1).last()
                            is Compound && spec_cis(y, p.subrange(0, p.len() - 1)));
                        assert(spec_cis_rest(y, p));
                    },
                    None => {},
                }
            },
            (ComponentModel::Compound(_), ComponentModel::Combinator(c2)) => {
                assert(y[y.len() - 2] is Compound);
                assert(yd.len() > 0 && yd.last() is Compound);
                assert(x.last() is Compound);
                lemma_unify_complex_super(x, yd);
                match spec_unify_complex(x, yd) {
                    Some(p0) => {
                        let p = p0.push(ComponentModel::Combinator(c2));
                        assert(forall|i: int| 0 <= i < p0.len() ==> p[i] == p0[i]);
                        assert(p0.len() > 0 && p0.last() is Compound);
                        assert(wf_prefix(p));
                        assert(p.drop_last() =~= p0);
                        assert(spec_cis_rest(y, p));
                        assert(p.subrange(0, p.len() - 1) =~= p0);
                        assert(0 < p.len() - 1 <= p.len() && p.subrange(0, p.len() - 1).last()
                            is Compound && spec_cis(x, p.subrange(0, p.len() - 1)));
                        assert(spec_cis_rest(x, p));
                    },
                    None => {},
                }
            },
            (ComponentModel::Compound(_), ComponentModel::Compound(_)) => {
                lemma_unify_complex_super(x, y);
                match spec_unify_complex(x, y) {
                    Some(p) => {
                        assert(p.subrange(0, p.len() as int) =~= p);
                        assert(0 < p.len() <= p.len() && p.subrange(0, p.len() as int).last()
                            is Compound && spec_cis(x, p.subrange(0, p.len() as int)));
                        assert(spec_cis_rest(x, p));
                        assert(0 < p.len() <= p.len() && spec_cis(y, p.subrange(0, p.len() as int)));
                        assert(spec_cis_rest(y, p));
                    },
                    None => {},
                }
            },
        }
    }
}


/// The longest inner sequence.
pub open spec fn spec_max_len(qs: Seq<Seq<ComplexModel>>) -> int
    decreases qs.len(),
{
    if qs.len() == 0 {
        0
    } else {
        let rest = spec_max_len(qs.drop_first());
        if qs[0].len() > rest {
            qs[0].len() as int
        } else {
            rest
        }
    }
}

/// The k-th element of every inner sequence long enough to have one.
pub open spec fn spec_fv_row(qs: Seq<Seq<ComplexModel>>, k: int) -> Seq<ComplexModel>
    decreases qs.len(),
{
    if qs.len() == 0 {
        Seq::empty()
    } else {
        (if 0 <= k < qs[0].len() {
            seq![qs[0][k]]
        } else {
            Seq::empty()
        }) + spec_fv_row(qs.drop_first(), k)
    }
}

/// Vertical flattening: pass over the heads of every sequence, then the
/// second elements, and so on, preserving the written order across
/// sibling expansions.
pub open spec fn spec_flatten_vertically(qs: Seq<Seq<ComplexModel>>, k: int) -> Seq<ComplexModel>
    decreases spec_max_len(qs) - k,
{
    if k < 0 || k >= spec_max_len(qs) {
        Seq::empty()
    } else {
        spec_fv_row(qs, k) + spec_flatten_vertically(qs, k + 1)
    }
}

/// A selector list: the selector matches an element that any of its
/// complex selectors matches.
#[derive(Debug)]
pub struct SelectorList {
    pub components: Vec<ComplexSelector>,
}

/// The model of a selector list.
pub open spec fn list_model(s: SelectorList) -> Seq<ComplexModel> {
    Seq::new(s.components@.len(), |i: int| s.components@[i]@)
}

impl View for SelectorList {
    type V = Seq<ComplexModel>;

    open spec fn view(&self) -> Seq<ComplexModel> {
        list_model(*self)
    }
}

/// Whether any complex selector of a list holds the parent selector.
pub open spec fn list_has_parent(l: Seq<ComplexModel>) -> bool {
    exists|i: int| 0 <= i < l.len() && complex_has_parent(#[trigger] l[i])
}

/// Some complex selector of a list matches everything one complex
/// selector matches.
pub open spec fn some_complex_super(a: Seq<ComplexModel>, bc: ComplexModel) -> bool {
    exists|j: int| 0 <= j < a.len() && spec_cis((#[trigger] a[j]).components, bc.components)
}

/// One list is a superselector of another when every complex selector of
/// the second is matched by some complex selector of the first.
pub open spec fn list_is_superselector(a: Seq<ComplexModel>, b: Seq<ComplexModel>) -> bool {
    forall|i: int| 0 <= i < b.len() ==> some_complex_super(a, #[trigger] b[i])
}

impl SelectorList {
    /// The empty selector list.
    pub fn new() -> (r: SelectorList)
        ensures
            r@.len() == 0,
    {
        let r = SelectorList { components: Vec::new() };
        proof {
            assert(r@ =~= Seq::<ComplexModel>::empty());
        }
        r
    }

    pub fn is_empty(&self) -> (r: bool)
        ensures
            r == (self@.len() == 0),
    {
        self.components.len() == 0
    }

    /// A copy with the same model.
    pub fn clone_list(&self) -> (r: SelectorList)
        ensures
            r@ == self@,
    {
        let mut components: Vec<ComplexSelector> = Vec::new();
        let mut i: usize = 0;
        #[verifier::loop_isolation(false)]
        while i < self.components.len()
            invariant
                i <= self.components@.len(),
                components@.len() == i,
                forall|j: int| 0 <= j < i ==> #[trigger] components@[j]@ == self.components@[j]@,
            decreases self.components@.len() - i,
        {
            components.push(self.components[i].clone_complex());
            i = i + 1;
        }
        let r = SelectorList { components };
        proof {
            assert(r@ =~= self@);
        }
        r
    }

    /// Whether every complex selector is invisible.
    pub fn is_invisible(&self) -> (r: bool)
        ensures
            r == (forall|i: int| 0 <= i < self@.len() ==> complex_is_invisible(#[trigger] self@[i])),
    {
        let mut i: usize = 0;
        #[verifier::loop_isolation(false)]
        while i < self.components.len()
            invariant
                i <= self.components@.len(),
                forall|j: int| 0 <= j < i ==> complex_is_invisible(#[trigger] self@[j]),
            decreases self.components@.len() - i,
        {
            if !self.components[i].is_invisible() {
                proof {
                    assert(self@[i as int] == self.components@[i as int]@);
                }
                return false;
            }
            i = i + 1;
        }
        true
    }

    /// Whether any complex selector holds the parent selector.
    pub fn contains_parent_selector(&self) -> (r: bool)
        ensures
            r == list_has_parent(self@),
    {
        let mut i: usize = 0;
        #[verifier::loop_isolation(false)]
        while i < self.components.len()
            invariant
                i <= self.components@.len(),
                forall|j: int| 0 <= j < i ==> !complex_has_parent(#[trigger] self@[j]),
            decreases self.components@.len() - i,
        {
            if self.components[i].contains_parent_selector() {
                proof {
                    assert(self@[i as int] == self.components@[i as int]@);
                }
                return true;
            }
            i = i + 1;
        }
        false
    }

    /// Whether this list matches everything the other matches.
    pub fn is_superselector(&self, other: &SelectorList) -> (r: bool)
        ensures
            r == list_is_superselector(self@, other@),
    {
        let mut i: usize = 0;
        #[verifier::loop_isolation(false)]
        while i < other.components.len()
            invariant
                i <= other.components@.len(),
                forall|j: int| 0 <= j < i ==> some_complex_super(self@, #[trigger] other@[j]),
            decreases other.components@.len() - i,
        {
            let mut k: usize = 0;
            let mut found: bool = false;
            #[verifier::loop_isolation(false)]
            while k < self.components.len() && !found
                invariant
                    k <= self.components@.len(),
                    found ==> some_complex_super(self@, other@[i as int]),
                    !found ==> forall|l: int|
                        0 <= l < k ==> !spec_cis(
                            (#[trigger] self@[l]).components,
                            other@[i as int].components,
                        ),
                decreases self.components@.len() - k,
            {
                let sc = &self.components[k];
                let oc = &other.components[i];
                let hit = cis_exec(&sc.components, sc.components.len(), &oc.components, oc.components.len());
                proof {
                    assert(components_model(sc.components@).subrange(
                        0,
                        sc.components@.len() as int,
                    ) =~= self@[k as int].components);
                    assert(components_model(oc.components@).subrange(
                        0,
                        oc.components@.len() as int,
                    ) =~= other@[i as int].components);
                }
                if hit {
                    proof {
                        assert(spec_cis(
                            self@[k as int].components,
                            other@[i as int].components,
                        ));
                        assert(some_complex_super(self@, other@[i as int]));
                    }
                    found = true;
                }
                k = k + 1;
            }
            if !found {
                proof {
                    assert(!some_complex_super(self@, other@[i as int]));
                }
                return false;
            }
            i = i + 1;
        }
        true
    }
}


/// Unifying one complex selector against every member of a list, in
/// order; pairs with no unifier contribute nothing.
pub open spec fn spec_unify_row(ac: ComplexModel, b: Seq<ComplexModel>) -> Seq<ComplexModel>
    decreases b.len(),
{
    if b.len() == 0 {
        Seq::empty()
    } else {
        (match spec_unify_complex(ac.components, b[0].components) {
            Some(u) => seq![ComplexModel { components: u, line_break: false }],
            None => Seq::empty(),
        }) + spec_unify_row(ac, b.subrange(1, b.len() as int))
    }
}

/// Unifying two selector lists pair by pair, in written order.
pub open spec fn spec_unify_lists(a: Seq<ComplexModel>, b: Seq<ComplexModel>) -> Seq<ComplexModel>
    decreases a.len(),
{
    if a.len() == 0 {
        Seq::empty()
    } else {
        spec_unify_row(a[0], b) + spec_unify_lists(a.subrange(1, a.len() as int), b)
    }
}

/// Extending the row by one member.
proof fn lemma_unify_row_snoc(ac: ComplexModel, b: Seq<ComplexModel>, x: ComplexModel)
    ensures
        spec_unify_row(ac, b.push(x)) == spec_unify_row(ac, b) + (match spec_unify_complex(
            ac.components,
            x.components,
        ) {
            Some(u) => seq![ComplexModel { components: u, line_break: false }],
            None => Seq::empty(),
        }),
    decreases b.len(),
{
    let p = b.push(x);
    let hx = (match spec_unify_complex(ac.components, x.components) {
        Some(u) => seq![ComplexModel { components: u, line_break: false }],
        None => Seq::<ComplexModel>::empty(),
    });
    if b.len() == 0 {
        assert(p.subrange(1, p.len() as int) =~= Seq::<ComplexModel>::empty());
        assert(p[0] == x);
        assert(spec_unify_row(ac, p) == hx + spec_unify_row(
            ac,
            p.subrange(1, p.len() as int),
        ));
        assert(spec_unify_row(ac, b) == Seq::<ComplexModel>::empty());
        assert(spec_unify_row(ac, p) =~= spec_unify_row(ac, b) + hx);
    } else {
        let t = b.subrange(1, b.len() as int);
        let hb = (match spec_unify_complex(ac.components, b[0].components) {
            Some(u) => seq![ComplexModel { components: u, line_break: false }],
            None => Seq::<ComplexModel>::empty(),
        });
        assert(p.subrange(1, p.len() as int) =~= t.push(x));
        assert(p[0] == b[0]);
        lemma_unify_row_snoc(ac, t, x);
        assert(spec_unify_row(ac, p) == hb + spec_unify_row(ac, p.subrange(1, p.len() as int)));
        assert(spec_unify_row(ac, b) == hb + spec_unify_row(ac, t));
        assert(spec_unify_row(ac, t.push(x)) == spec_unify_row(ac, t) + hx);
        assert(spec_unify_row(ac, p) =~= spec_unify_row(ac, b) + hx);
    }
}

/// Extending the list of first members by one.
proof fn lemma_unify_lists_snoc(a: Seq<ComplexModel>, b: Seq<ComplexModel>, x: ComplexModel)
    ensures
        spec_unify_lists(a.push(x), b) == spec_unify_lists(a, b) + spec_unify_row(x, b),
    decreases a.len(),
{
    let p = a.push(x);
    if a.len() == 0 {
        assert(p.subrange(1, p.len() as int) =~= Seq::<ComplexModel>::empty());
        assert(p[0] == x);
        assert(spec_unify_lists(p, b) == spec_unify_row(x, b) + spec_unify_lists(
            p.subrange(1, p.len() as int),
            b,
        ));
        assert(spec_unify_lists(p.subrange(1, p.len() as int), b) == Seq::<
            ComplexModel,
        >::empty());
        assert(spec_unify_lists(a, b) == Seq::<ComplexModel>::empty());
        assert(spec_unify_lists(p, b) =~= spec_unify_lists(a, b) + spec_unify_row(x, b));
    } else {
        let t = a.subrange(1, a.len() as int);
        assert(p.subrange(1, p.len() as int) =~= t.push(x));
        assert(p[0] == a[0]);
        lemma_unify_lists_snoc(t, b, x);
        assert(spec_unify_lists(p, b) == spec_unify_row(a[0], b) + spec_unify_lists(
            t.push(x),
            b,
        ));
        assert(spec_unify_lists(a, b) == spec_unify_row(a[0], b) + spec_unify_lists(t, b));
        assert(spec_unify_lists(p, b) =~= spec_unify_lists(a, b) + spec_unify_row(x, b));
    }
}

impl SelectorList {
    /// Returns a list matching only what both lists match: every pair of
    /// complex selectors is unified, and pairs with no unifier are
    /// dropped; when nothing is left there is no unifier at all.
    pub fn unify(&self, other: &SelectorList) -> (res: Option<SelectorList>)
        ensures
            spec_unify_lists(self@, other@).len() == 0 ==> res is None,
            spec_unify_lists(self@, other@).len() > 0 ==> (res matches Some(l) && l@
                == spec_unify_lists(self@, other@)),
    {
        let mut out: Vec<ComplexSelector> = Vec::new();
        let mut i: usize = 0;
        #[verifier::loop_isolation(false)]
        while i < self.components.len()
            invariant
                i <= self.components@.len(),
                list_model_of(out@) =~= spec_unify_lists(self@.subrange(0, i as int), other@),
            decreases self.components@.len() - i,
        {
            let mut j: usize = 0;
            #[verifier::loop_isolation(false)]
            while j < other.components.len()
                invariant
                    j <= other.components@.len(),
                    list_model_of(out@) =~= spec_unify_lists(self@.subrange(0, i as int), other@)
                        + spec_unify_row(self@[i as int], other@.subrange(0, j as int)),
                decreases other.components@.len() - j,
            {
                let sc = &self.components[i];
                let oc = &other.components[j];
                let r = unify_complex_exec(
                    &sc.components,
                    sc.components.len(),
                    &oc.components,
                    oc.components.len(),
                );
                proof {
                    assert(components_model(sc.components@).subrange(
                        0,
                        sc.components@.len() as int,
                    ) =~= self@[i as int].components);
                    assert(components_model(oc.components@).subrange(
                        0,
                        oc.components@.len() as int,
                    ) =~= other@[j as int].components);
                    assert(other@.subrange(0, j as int).push(other@[j as int])
                        =~= other@.subrange(0, j + 1 as int));
                    lemma_unify_row_snoc(
                        self@[i as int],
                        other@.subrange(0, j as int),
                        other@[j as int],
                    );
                }
                match r {
                    Some(u) => {
                        let uc = ComplexSelector { components: u, line_break: false };
                        proof {
                            assert(uc@ == ComplexModel {
                                components: components_model(u@),
                                line_break: false,
                            }) by {
                                assert(uc@.components =~= components_model(u@));
                            }
                            match spec_unify_complex(
                                self@[i as int].components,
                                other@[j as int].components,
                            ) {
                                Some(u0) => {
                                    assert(components_model(u@) == u0);
                                    assert(seq![uc@] =~= seq![
                                        ComplexModel { components: u0, line_break: false },
                                    ]);
                                },
                                None => {
                                    assert(false);
                                },
                            }
                        }
                        let ghost before: Seq<ComplexModel> = list_model_of(out@);
                        out.push(uc);
                        proof {
                            assert(list_model_of(out@) =~= before.push(uc@));
                            assert(list_model_of(out@) =~= spec_unify_lists(
                                self@.subrange(0, i as int),
                                other@,
                            ) + spec_unify_row(self@[i as int], other@.subrange(0, j + 1 as int)));
                        }
                    },
                    None => {
                        proof {
                            assert(list_model_of(out@) =~= spec_unify_lists(
                                self@.subrange(0, i as int),
                                other@,
                            ) + spec_unify_row(self@[i as int], other@.subrange(0, j + 1 as int)));
                        }
                    },
                }
                j = j + 1;
            }
            proof {
                assert(other@.subrange(0, other@.len() as int) =~= other@);
                assert(self@.subrange(0, i as int).push(self@[i as int]) =~= self@.subrange(
                    0,
                    i + 1 as int,
                ));
                lemma_unify_lists_snoc(self@.subrange(0, i as int), other@, self@[i as int]);
            }
            i = i + 1;
        }
        proof {
            assert(self@.subrange(0, self@.len() as int) =~= self@);
        }
        if out.len() == 0 {
            None
        } else {
            let r = SelectorList { components: out };
            proof {
                assert(r@ =~= list_model_of(r.components@));
            }
            Some(r)
        }
    }
}

/// The models of a vector of complex selectors.
pub open spec fn list_model_of(v: Seq<ComplexSelector>) -> Seq<ComplexModel> {
    Seq::new(v.len(), |i: int| v[i]@)
}

/// Whenever two selector lists unify, each is a superselector of the
/// unified list: the unifier matches only what both sides match.
pub proof fn lemma_unify_is_superselector(a: Seq<ComplexModel>, b: Seq<ComplexModel>)
    requires
        forall|i: int| 0 <= i < a.len() ==> wf_components((#[trigger] a[i]).components),
        forall|i: int| 0 <= i < b.len() ==> wf_components((#[trigger] b[i]).components),
    ensures
        list_is_superselector(a, spec_unify_lists(a, b)),
        list_is_superselector(b, spec_unify_lists(a, b)),
    decreases a.len(),
{
    if a.len() > 0 {
        let t = a.subrange(1, a.len() as int);
        assert(forall|i: int| 0 <= i < t.len() ==> t[i] == a[i + 1]);
        lemma_unify_is_superselector(t, b);
        lemma_unify_row_super(a[0], b);
        let row = spec_unify_row(a[0], b);
        let rest = spec_unify_lists(t, b);
        assert forall|i: int|
            0 <= i < spec_unify_lists(a, b).len() implies some_complex_super(
            a,
            #[trigger] spec_unify_lists(a, b)[i],
        ) && some_complex_super(b, spec_unify_lists(a, b)[i]) by {
            let u = spec_unify_lists(a, b)[i];
            if i < row.len() {
                assert(u == row[i]);
                assert(spec_cis(a[0].components, u.components));
                assert(some_complex_super(a, u));
            } else {
                assert(u == rest[i - row.len()]);
                assert(some_complex_super(t, u));
                let w = choose|w: int|
                    0 <= w < t.len() && spec_cis((#[trigger] t[w]).components, u.components);
                assert(a[w + 1] == t[w]);
                assert(some_complex_super(a, u));
            }
        }
    }
}

/// Every member of a unification row is matched by the fixed side and by
/// the member it was unified with.
proof fn lemma_unify_row_super(ac: ComplexModel, b: Seq<ComplexModel>)
    requires
        wf_components(ac.components),
        forall|i: int| 0 <= i < b.len() ==> wf_components((#[trigger] b[i]).components),
    ensures
        forall|i: int|
            0 <= i < spec_unify_row(ac, b).len() ==> spec_cis(
                ac.components,
                (#[trigger] spec_unify_row(ac, b)[i]).components,
            ) && some_complex_super(b, spec_unify_row(ac, b)[i]),
    decreases b.len(),
{
    if b.len() > 0 {
        let t = b.subrange(1, b.len() as int);
        assert(forall|i: int| 0 <= i < t.len() ==> t[i] == b[i + 1]);
        lemma_unify_row_super(ac, t);
        lemma_unify_complex_super(ac.components, b[0].components);
        let head = (match spec_unify_complex(ac.components, b[0].components) {
            Some(u) => seq![ComplexModel { components: u, line_break: false }],
            None => Seq::<ComplexModel>::empty(),
        });
        assert forall|i: int|
            0 <= i < spec_unify_row(ac, b).len() implies spec_cis(
            ac.components,
            (#[trigger] spec_unify_row(ac, b)[i]).components,
        ) && some_complex_super(b, spec_unify_row(ac, b)[i]) by {
            let u = spec_unify_row(ac, b)[i];
            if i < head.len() {
                assert(u == head[0]);
                assert(spec_cis(b[0].components, u.components));
                assert(some_complex_super(b, u));
            } else {
                assert(u == spec_unify_row(ac, t)[i - head.len()]);
                assert(some_complex_super(t, u));
                let w = choose|w: int|
                    0 <= w < t.len() && spec_cis((#[trigger] t[w]).components, u.components);
                assert(b[w + 1] == t[w]);
                assert(some_complex_super(b, u));
            }
        }
    }
}


/// A simple selector with a parent suffix appended to its name; a
/// selector with no name to extend is kept unchanged.
pub open spec fn spec_suffixed(s: SimpleModel, sfx: Seq<char>) -> SimpleModel {
    match s {
        SimpleModel::Type(n) => SimpleModel::Type(n + sfx),
        SimpleModel::Class(n) => SimpleModel::Class(n + sfx),
        SimpleModel::Id(n) => SimpleModel::Id(n + sfx),
        SimpleModel::Placeholder(n) => SimpleModel::Placeholder(n + sfx),
        other => other,
    }
}

/// A parent suffix lands on the last simple selector of the injected
/// parent's last compound.
pub open spec fn spec_apply_suffix_compound(base: CompoundModel, sfx: Seq<char>) -> CompoundModel {
    if sfx.len() == 0 || base.len() == 0 {
        base
    } else {
        base.drop_last().push(spec_suffixed(base.last(), sfx))
    }
}

/// One parent complex selector injected in place of a compound whose
/// first part is the parent selector.
pub open spec fn spec_inject(k: CompoundModel, pc: ComplexModel) -> ComplexModel {
    let sfx = k[0]->Parent_0;
    let rest = k.subrange(1, k.len() as int);
    if pc.components.len() > 0 && pc.components.last() is Compound {
        let base = pc.components.last()->Compound_0;
        let merged = spec_apply_suffix_compound(base, sfx) + rest;
        ComplexModel {
            components: pc.components.drop_last().push(ComponentModel::Compound(merged)),
            line_break: pc.line_break,
        }
    } else {
        ComplexModel {
            components: pc.components + seq![ComponentModel::Compound(rest)],
            line_break: pc.line_break,
        }
    }
}

/// The compound injected against every parent complex selector.
pub open spec fn spec_inject_all(k: CompoundModel, p: Seq<ComplexModel>) -> Seq<ComplexModel> {
    Seq::new(p.len(), |j: int| spec_inject(k, p[j]))
}

/// Every partial expansion crossed with every resolution of one
/// compound.
pub open spec fn spec_cross(
    state: Seq<(Seq<ComponentModel>, bool)>,
    resolved: Seq<ComplexModel>,
) -> Seq<(Seq<ComponentModel>, bool)>
    decreases state.len(),
{
    if state.len() == 0 {
        Seq::empty()
    } else {
        Seq::new(
            resolved.len(),
            |j: int|
                (
                    state[0].0 + resolved[j].components,
                    state[0].1 || resolved[j].line_break,
                ),
        ) + spec_cross(state.subrange(1, state.len() as int), resolved)
    }
}

/// One step of parent resolution: a compound led by the parent selector
/// expands against every parent complex; everything else is appended to
/// every partial expansion.
pub open spec fn spec_resolve_step(
    state: Seq<(Seq<ComponentModel>, bool)>,
    comp: ComponentModel,
    p: Seq<ComplexModel>,
) -> Seq<(Seq<ComponentModel>, bool)> {
    match comp {
        ComponentModel::Compound(k) => if k.len() > 0 && k[0] is Parent {
            spec_cross(state, spec_inject_all(k, p))
        } else {
            Seq::new(state.len(), |j: int| (state[j].0.push(comp), state[j].1))
        },
        _ => Seq::new(state.len(), |j: int| (state[j].0.push(comp), state[j].1)),
    }
}

/// The partial expansions after the first `n` components.
pub open spec fn spec_rc(
    comps: Seq<ComponentModel>,
    n: int,
    p: Seq<ComplexModel>,
) -> Seq<(Seq<ComponentModel>, bool)>
    decreases n,
{
    if n <= 0 {
        seq![(Seq::<ComponentModel>::empty(), false)]
    } else {
        spec_resolve_step(spec_rc(comps, n - 1, p), comps[n - 1], p)
    }
}

/// What one complex selector resolves to against a parent list.
pub open spec fn spec_resolve_complex(
    c: ComplexModel,
    p: Seq<ComplexModel>,
    implicit: bool,
) -> Seq<ComplexModel> {
    if !complex_has_parent(c) {
        if !implicit {
            seq![c]
        } else {
            Seq::new(
                p.len(),
                |j: int|
                    ComplexModel {
                        components: p[j].components + c.components,
                        line_break: c.line_break || p[j].line_break,
                    },
            )
        }
    } else {
        let st = spec_rc(c.components, c.components.len() as int, p);
        Seq::new(st.len(), |j: int| ComplexModel { components: st[j].0, line_break: st[j].1 })
    }
}

/// What a selector list resolves to. With no parent, a list without the
/// parent selector is returned as it stands and one with it is an error;
/// with a parent, every complex selector expands and the expansions are
/// flattened vertically.
pub open spec fn spec_resolve_list(
    list: Seq<ComplexModel>,
    parent: Option<Seq<ComplexModel>>,
    implicit: bool,
) -> Result<Seq<ComplexModel>, crate::error::ErrorKind> {
    match parent {
        None => if list_has_parent(list) {
            Err(crate::error::ErrorKind::Parent)
        } else {
            Ok(list)
        },
        Some(p) => Ok(
            spec_flatten_vertically(
                Seq::new(list.len(), |i: int| spec_resolve_complex(list[i], p, implicit)),
                0,
            ),
        ),
    }
}

/// Resolving a list that holds no parent selector, with no parent to
/// give, returns the list as it stands: resolution is idempotent once
/// every parent selector is gone.
pub proof fn lemma_resolve_idempotent(resolved: Seq<ComplexModel>)
    requires
        !list_has_parent(resolved),
    ensures
        spec_resolve_list(resolved, None, true) == Ok::<_, crate::error::ErrorKind>(resolved),
{
}



/// The models of a vector of simple selectors.
pub open spec fn simples_model(v: Seq<SimpleSelector>) -> Seq<SimpleModel> {
    Seq::new(v.len(), |i: int| v[i]@)
}

/// Appends copies of the simple selectors from a position on.
fn append_simples(dst: &mut Vec<SimpleSelector>, src: &Vec<SimpleSelector>, from: usize)
    requires
        from <= src@.len(),
    ensures
        simples_model(final(dst)@) == simples_model(old(dst)@) + simples_model(src@).subrange(
            from as int,
            src@.len() as int,
        ),
{
    let mut t: usize = from;
    #[verifier::loop_isolation(false)]
    while t < src.len()
        invariant
            from <= t <= src@.len(),
            simples_model(dst@) =~= simples_model(old(dst)@) + simples_model(src@).subrange(
                from as int,
                t as int,
            ),
        decreases src@.len() - t,
    {
        let cs = src[t].clone_simple();
        proof {
            assert(cs@ == simples_model(src@)[t as int]);
        }
        let ghost pre: Seq<SimpleModel> = simples_model(dst@);
        dst.push(cs);
        proof {
            assert(simples_model(dst@) =~= pre.push(cs@));
            assert(simples_model(src@).subrange(from as int, t + 1 as int) =~= simples_model(
                src@,
            ).subrange(from as int, t as int).push(simples_model(src@)[t as int]));
            assert(simples_model(dst@) =~= simples_model(old(dst)@) + simples_model(
                src@,
            ).subrange(from as int, t + 1 as int));
        }
        t = t + 1;
    }
}

/// Appends copies of the components from a position on.
fn append_components(
    dst: &mut Vec<ComplexSelectorComponent>,
    src: &Vec<ComplexSelectorComponent>,
    from: usize,
)
    requires
        from <= src@.len(),
    ensures
        components_model(final(dst)@) == components_model(old(dst)@) + components_model(
            src@,
        ).subrange(from as int, src@.len() as int),
{
    let mut t: usize = from;
    #[verifier::loop_isolation(false)]
    while t < src.len()
        invariant
            from <= t <= src@.len(),
            components_model(dst@) =~= components_model(old(dst)@) + components_model(
                src@,
            ).subrange(from as int, t as int),
        decreases src@.len() - t,
    {
        let cc = src[t].clone_component();
        proof {
            assert(cc@ == components_model(src@)[t as int]);
        }
        let ghost pre: Seq<ComponentModel> = components_model(dst@);
        dst.push(cc);
        proof {
            assert(components_model(dst@) =~= pre.push(cc@));
            assert(components_model(src@).subrange(from as int, t + 1 as int)
                =~= components_model(src@).subrange(from as int, t as int).push(
                components_model(src@)[t as int],
            ));
            assert(components_model(dst@) =~= components_model(old(dst)@) + components_model(
                src@,
            ).subrange(from as int, t + 1 as int));
        }
        t = t + 1;
    }
}

/// A parent suffix applied to one simple selector, decided.
fn suffixed_exec(s: &SimpleSelector, sfx: &String) -> (r: SimpleSelector)
    ensures
        r@ == spec_suffixed(s@, sfx@),
{
    match s {
        SimpleSelector::Type(n) => SimpleSelector::Type(n.clone().concat(sfx.as_str())),
        SimpleSelector::Class(n) => SimpleSelector::Class(n.clone().concat(sfx.as_str())),
        SimpleSelector::Id(n) => SimpleSelector::Id(n.clone().concat(sfx.as_str())),
        SimpleSelector::Placeholder(n) => SimpleSelector::Placeholder(
            n.clone().concat(sfx.as_str()),
        ),
        other => other.clone_simple(),
    }
}

/// One parent complex selector injected for a compound led by the
/// parent selector, decided.
fn inject_exec(k: &CompoundSelector, pc: &ComplexSelector) -> (r: ComplexSelector)
    requires
        k@.len() > 0,
        k@[0] is Parent,
    ensures
        r@ == spec_inject(k@, pc@),
{
    let sfx: String = match &k.parts[0] {
        SimpleSelector::Parent(s) => s.clone(),
        _ => String::new(),
    };
    let n = pc.components.len();
    let ends_compound: bool = if n > 0 {
        matches!(&pc.components[n - 1], ComplexSelectorComponent::Compound(_))
    } else {
        false
    };
    if ends_compound {
        let mut components = clone_components_prefix(&pc.components, n - 1);
        let mut merged: Vec<SimpleSelector> = Vec::new();
        match &pc.components[n - 1] {
            ComplexSelectorComponent::Compound(base) => {
                let bl = base.parts.len();
                if sfx.as_str().unicode_len() == 0 || bl == 0 {
                    let c = base.clone_compound();
                    merged = c.parts;
                    proof {
                        assert(Seq::new(merged@.len(), |i: int| merged@[i]@)
                            =~= spec_apply_suffix_compound(base@, sfx@));
                    }
                } else {
                    let c = base.clone_compound();
                    merged = c.parts;
                    let last = merged.remove(bl - 1);
                    merged.push(suffixed_exec(&last, &sfx));
                    proof {
                        assert(Seq::new(merged@.len(), |i: int| merged@[i]@)
                            =~= spec_apply_suffix_compound(base@, sfx@));
                    }
                }
            },
            _ => {
                proof {
                    assert(false);
                }
            },
        }
        let ghost base_done: Seq<SimpleModel> = Seq::new(merged@.len(), |i: int| merged@[i]@);
        proof {
            assert(simples_model(merged@) =~= base_done);
        }
        append_simples(&mut merged, &k.parts, 1);
        proof {
            assert(simples_model(k.parts@).subrange(1, k.parts@.len() as int) =~= k@.subrange(
                1,
                k@.len() as int,
            ));
            assert(Seq::new(merged@.len(), |i: int| merged@[i]@) =~= base_done + k@.subrange(
                1,
                k@.len() as int,
            ));
        }
        components.push(ComplexSelectorComponent::Compound(CompoundSelector { parts: merged }));
        let r = ComplexSelector { components, line_break: pc.line_break };
        proof {
            assert(pc@.components.drop_last() =~= components_model(pc.components@).subrange(
                0,
                n - 1,
            ));
            assert(r@.components =~= spec_inject(k@, pc@).components);
        }
        r
    } else {
        let mut components = clone_components_prefix(&pc.components, n);
        let mut rest: Vec<SimpleSelector> = Vec::new();
        append_simples(&mut rest, &k.parts, 1);
        proof {
            assert(simples_model(k.parts@).subrange(1, k.parts@.len() as int) =~= k@.subrange(
                1,
                k@.len() as int,
            ));
            assert(Seq::new(rest@.len(), |i: int| rest@[i]@) =~= k@.subrange(1, k@.len() as int));
        }
        components.push(ComplexSelectorComponent::Compound(CompoundSelector { parts: rest }));
        let r = ComplexSelector { components, line_break: pc.line_break };
        proof {
            assert(components_model(pc.components@).subrange(0, n as int) =~= pc@.components);
            assert(r@.components =~= spec_inject(k@, pc@).components);
        }
        r
    }
}

/// One step of parent resolution, decided.
fn resolve_step_exec(
    state: Vec<(Vec<ComplexSelectorComponent>, bool)>,
    comp: &ComplexSelectorComponent,
    p: &SelectorList,
) -> (r: Vec<(Vec<ComplexSelectorComponent>, bool)>)
    ensures
        state_model(r@) == spec_resolve_step(state_model(state@), comp@, p@),
{
    let is_parent_head: bool = match comp {
        ComplexSelectorComponent::Compound(k) => {
            k.parts.len() > 0 && k.parts[0].is_parent()
        },
        _ => false,
    };
    if is_parent_head {
        match comp {
            ComplexSelectorComponent::Compound(k) => {
                let mut out: Vec<(Vec<ComplexSelectorComponent>, bool)> = Vec::new();
                let mut i: usize = 0;
                #[verifier::loop_isolation(false)]
                while i < state.len()
                    invariant
                        i <= state@.len(),
                        state_model(out@) =~= spec_cross_prefix(
                            state_model(state@),
                            spec_inject_all(k@, p@),
                            i as int,
                        ),
                    decreases state@.len() - i,
                {
                    let mut j: usize = 0;
                    #[verifier::loop_isolation(false)]
                    while j < p.components.len()
                        invariant
                            j <= p.components@.len(),
                            state_model(out@) =~= spec_cross_prefix(
                                state_model(state@),
                                spec_inject_all(k@, p@),
                                i as int,
                            ) + Seq::new(
                                j as nat,
                                |jj: int|
                                    (
                                        state_model(state@)[i as int].0 + spec_inject_all(
                                            k@,
                                            p@,
                                        )[jj].components,
                                        state_model(state@)[i as int].1 || spec_inject_all(
                                            k@,
                                            p@,
                                        )[jj].line_break,
                                    ),
                            ),
                        decreases p.components@.len() - j,
                    {
                        let injected = inject_exec(k, &p.components[j]);
                        let mut comps = clone_components_prefix(&state[i].0, state[i].0.len());
                        proof {
                            assert(components_model(state@[i as int].0@).subrange(
                                0,
                                state@[i as int].0@.len() as int,
                            ) =~= components_model(state@[i as int].0@));
                        }
                        append_components(&mut comps, &injected.components, 0);
                        proof {
                            assert(components_model(injected.components@).subrange(
                                0,
                                injected.components@.len() as int,
                            ) =~= injected@.components);
                            assert(components_model(comps@) =~= components_model(
                                state@[i as int].0@,
                            ) + injected@.components);
                        }
                        let lb: bool = state[i].1 || injected.line_break;
                        let ghost before: Seq<(Seq<ComponentModel>, bool)> = state_model(out@);
                        out.push((comps, lb));
                        proof {
                            assert(components_model(injected.components@).subrange(
                                0,
                                injected.components@.len() as int,
                            ) =~= injected@.components);
                            assert(injected@ == spec_inject_all(k@, p@)[j as int]);
                            assert(state_model(out@) =~= before.push(
                                (
                                    state_model(state@)[i as int].0 + spec_inject_all(
                                        k@,
                                        p@,
                                    )[j as int].components,
                                    state_model(state@)[i as int].1 || spec_inject_all(
                                        k@,
                                        p@,
                                    )[j as int].line_break,
                                ),
                            ));
                            assert(state_model(out@) =~= spec_cross_prefix(
                                state_model(state@),
                                spec_inject_all(k@, p@),
                                i as int,
                            ) + Seq::new(
                                (j + 1) as nat,
                                |jj: int|
                                    (
                                        state_model(state@)[i as int].0 + spec_inject_all(
                                            k@,
                                            p@,
                                        )[jj].components,
                                        state_model(state@)[i as int].1 || spec_inject_all(
                                            k@,
                                            p@,
                                        )[jj].line_break,
                                    ),
                            ));
                        }
                        j = j + 1;
                    }
                    proof {
                        lemma_cross_prefix_step(state_model(state@), spec_inject_all(k@, p@), i as int);
                    }
                    i = i + 1;
                }
                proof {
                    lemma_cross_prefix_full(state_model(state@), spec_inject_all(k@, p@));
                }
                out
            },
            _ => {
                // unreachable: the component was seen to be a compound
                Vec::new()
            },
        }
    } else {
        let mut out: Vec<(Vec<ComplexSelectorComponent>, bool)> = Vec::new();
        let mut i: usize = 0;
        #[verifier::loop_isolation(false)]
        while i < state.len()
            invariant
                i <= state@.len(),
                state_model(out@).len() == i,
                forall|j: int|
                    0 <= j < i ==> #[trigger] state_model(out@)[j] == (
                        state_model(state@)[j].0.push(comp@),
                        state_model(state@)[j].1,
                    ),
            decreases state@.len() - i,
        {
            let mut comps = clone_components_prefix(&state[i].0, state[i].0.len());
            proof {
                assert(components_model(state@[i as int].0@).subrange(
                    0,
                    state@[i as int].0@.len() as int,
                ) =~= components_model(state@[i as int].0@));
            }
            let cc = comp.clone_component();
            comps.push(cc);
            let lb: bool = state[i].1;
            proof {
                assert(components_model(comps@) =~= state_model(state@)[i as int].0.push(comp@));
            }
            let ghost b4: Seq<(Seq<ComponentModel>, bool)> = state_model(out@);
            out.push((comps, lb));
            proof {
                assert(state_model(out@) =~= b4.push((components_model(comps@), lb)));
            }
            i = i + 1;
        }
        proof {
            assert(state_model(out@) =~= spec_resolve_step(state_model(state@), comp@, p@));
        }
        out
    }
}

/// The models of a vector of partial expansions.
pub open spec fn state_model(v: Seq<(Vec<ComplexSelectorComponent>, bool)>) -> Seq<
    (Seq<ComponentModel>, bool),
> {
    Seq::new(v.len(), |i: int| (components_model(v[i].0@), v[i].1))
}

/// The cross product of the first `n` partial expansions.
pub open spec fn spec_cross_prefix(
    state: Seq<(Seq<ComponentModel>, bool)>,
    resolved: Seq<ComplexModel>,
    n: int,
) -> Seq<(Seq<ComponentModel>, bool)>
    decreases n,
{
    if n <= 0 {
        Seq::empty()
    } else {
        spec_cross_prefix(state, resolved, n - 1) + Seq::new(
            resolved.len(),
            |j: int|
                (
                    state[n - 1].0 + resolved[j].components,
                    state[n - 1].1 || resolved[j].line_break,
                ),
        )
    }
}

/// Extending the cross-product prefix by one expansion.
proof fn lemma_cross_prefix_step(
    state: Seq<(Seq<ComponentModel>, bool)>,
    resolved: Seq<ComplexModel>,
    i: int,
)
    requires
        0 <= i < state.len(),
    ensures
        spec_cross_prefix(state, resolved, i + 1) == spec_cross_prefix(state, resolved, i)
            + Seq::new(
            resolved.len(),
            |j: int|
                (state[i].0 + resolved[j].components, state[i].1 || resolved[j].line_break),
        ),
{
}

/// The full cross-product prefix is the cross product.
proof fn lemma_cross_prefix_full(
    state: Seq<(Seq<ComponentModel>, bool)>,
    resolved: Seq<ComplexModel>,
)
    ensures
        spec_cross_prefix(state, resolved, state.len() as int) == spec_cross(state, resolved),
    decreases state.len(),
{
    lemma_cross_prefix_as_cross(state, resolved, 0);
    assert(spec_cross_suffix(state, resolved, 0) =~= spec_cross(state, resolved)) by {
        assert(state.subrange(0, state.len() as int) =~= state);
    }
}

/// The cross product of the expansions from `n` on.
pub open spec fn spec_cross_suffix(
    state: Seq<(Seq<ComponentModel>, bool)>,
    resolved: Seq<ComplexModel>,
    n: int,
) -> Seq<(Seq<ComponentModel>, bool)> {
    spec_cross(state.subrange(n, state.len() as int), resolved)
}

/// The prefix and suffix views of the cross product agree.
proof fn lemma_cross_prefix_as_cross(
    state: Seq<(Seq<ComponentModel>, bool)>,
    resolved: Seq<ComplexModel>,
    n: int,
)
    requires
        0 <= n <= state.len(),
    ensures
        spec_cross_prefix(state, resolved, state.len() as int) == spec_cross_prefix(
            state,
            resolved,
            n,
        ) + spec_cross(state.subrange(n, state.len() as int), resolved),
    decreases state.len() - n,
{
    if n == state.len() {
        assert(state.subrange(n, state.len() as int) =~= Seq::<
            (Seq<ComponentModel>, bool),
        >::empty());
        assert(spec_cross_prefix(state, resolved, state.len() as int) =~= spec_cross_prefix(
            state,
            resolved,
            n,
        ) + spec_cross(state.subrange(n, state.len() as int), resolved));
    } else {
        lemma_cross_prefix_as_cross(state, resolved, n + 1);
        let sub = state.subrange(n, state.len() as int);
        assert(sub[0] == state[n]);
        assert(sub.subrange(1, sub.len() as int) =~= state.subrange(n + 1, state.len() as int));
        lemma_cross_prefix_step(state, resolved, n);
        assert(spec_cross_prefix(state, resolved, state.len() as int) =~= spec_cross_prefix(
            state,
            resolved,
            n,
        ) + spec_cross(sub, resolved));
    }
}


/// The partial expansions of a prefix of a complex selector, decided.
fn rc_exec(c: &Vec<ComplexSelectorComponent>, n: usize, p: &SelectorList) -> (r: Vec<
    (Vec<ComplexSelectorComponent>, bool),
>)
    requires
        n <= c@.len(),
    ensures
        state_model(r@) == spec_rc(components_model(c@), n as int, p@),
    decreases n,
{
    if n == 0 {
        let mut r: Vec<(Vec<ComplexSelectorComponent>, bool)> = Vec::new();
        r.push((Vec::new(), false));
        proof {
            assert(state_model(r@) =~= spec_rc(components_model(c@), 0, p@)) by {
                assert(components_model(r@[0].0@) =~= Seq::<ComponentModel>::empty());
            }
        }
        r
    } else {
        let st = rc_exec(c, n - 1, p);
        let r = resolve_step_exec(st, &c[n - 1], p);
        proof {
            assert(components_model(c@)[n - 1] == c@[n - 1]@);
        }
        r
    }
}

impl ComplexSelector {
    /// What this complex selector resolves to against a parent list.
    pub fn resolve_against(&self, parent: &SelectorList, implicit_parent: bool) -> (r: Vec<
        ComplexSelector,
    >)
        ensures
            list_model_of(r@) == spec_resolve_complex(self@, parent@, implicit_parent),
    {
        if !self.contains_parent_selector() {
            if !implicit_parent {
                let mut out: Vec<ComplexSelector> = Vec::new();
                out.push(self.clone_complex());
                proof {
                    assert(list_model_of(out@) =~= seq![self@]);
                }
                out
            } else {
                let mut out: Vec<ComplexSelector> = Vec::new();
                let mut j: usize = 0;
                #[verifier::loop_isolation(false)]
                while j < parent.components.len()
                    invariant
                        j <= parent.components@.len(),
                        list_model_of(out@).len() == j,
                        forall|l: int|
                            0 <= l < j ==> #[trigger] list_model_of(out@)[l] == (ComplexModel {
                                components: parent@[l].components + self@.components,
                                line_break: self@.line_break || parent@[l].line_break,
                            }),
                    decreases parent.components@.len() - j,
                {
                    let pc = &parent.components[j];
                    let mut comps = clone_components_prefix(&pc.components, pc.components.len());
                    proof {
                        assert(components_model(pc.components@).subrange(
                            0,
                            pc.components@.len() as int,
                        ) =~= parent@[j as int].components);
                    }
                    append_components(&mut comps, &self.components, 0);
                    proof {
                        assert(components_model(self.components@).subrange(
                            0,
                            self.components@.len() as int,
                        ) =~= self@.components);
                    }
                    let lb: bool = self.line_break || pc.line_break;
                    let nc = ComplexSelector { components: comps, line_break: lb };
                    proof {
                        assert(nc@.components =~= parent@[j as int].components + self@.components);
                    }
                    let ghost b4: Seq<ComplexModel> = list_model_of(out@);
                    out.push(nc);
                    proof {
                        assert(list_model_of(out@) =~= b4.push(nc@));
                    }
                    j = j + 1;
                }
                proof {
                    assert(list_model_of(out@) =~= spec_resolve_complex(
                        self@,
                        parent@,
                        implicit_parent,
                    ));
                }
                out
            }
        } else {
            let st = rc_exec(&self.components, self.components.len(), parent);
            let mut out: Vec<ComplexSelector> = Vec::new();
            let mut j: usize = 0;
            #[verifier::loop_isolation(false)]
            while j < st.len()
                invariant
                    j <= st@.len(),
                    list_model_of(out@).len() == j,
                    forall|l: int|
                        0 <= l < j ==> #[trigger] list_model_of(out@)[l] == (ComplexModel {
                            components: state_model(st@)[l].0,
                            line_break: state_model(st@)[l].1,
                        }),
                decreases st@.len() - j,
            {
                let comps = clone_components_prefix(&st[j].0, st[j].0.len());
                proof {
                    assert(components_model(st@[j as int].0@).subrange(
                        0,
                        st@[j as int].0@.len() as int,
                    ) =~= state_model(st@)[j as int].0);
                }
                let nc = ComplexSelector { components: comps, line_break: st[j].1 };
                let ghost b4: Seq<ComplexModel> = list_model_of(out@);
                out.push(nc);
                proof {
                    assert(list_model_of(out@) =~= b4.push(nc@));
                }
                j = j + 1;
            }
            proof {
                assert(components_model(self.components@) =~= self@.components);
                assert(list_model_of(out@) =~= spec_resolve_complex(
                    self@,
                    parent@,
                    implicit_parent,
                ));
            }
            out
        }
    }
}

/// The longest inner vector, decided from a position on.
fn max_len_exec(qs: &Vec<Vec<ComplexSelector>>, i: usize) -> (r: usize)
    requires
        i <= qs@.len(),
    ensures
        r == spec_max_len(lists_model(qs@).subrange(i as int, qs@.len() as int)),
    decreases qs@.len() - i,
{
    let ghost sub = lists_model(qs@).subrange(i as int, qs@.len() as int);
    if i == qs.len() {
        proof {
            assert(sub =~= Seq::<Seq<ComplexModel>>::empty());
        }
        0
    } else {
        let rest = max_len_exec(qs, i + 1);
        proof {
            assert(sub[0] == lists_model(qs@)[i as int]);
            assert(sub.subrange(1, sub.len() as int) =~= lists_model(qs@).subrange(
                i + 1,
                qs@.len() as int,
            ));
        }
        if qs[i].len() > rest {
            qs[i].len()
        } else {
            rest
        }
    }
}

/// The models of a vector of expansion vectors.
pub open spec fn lists_model(v: Seq<Vec<ComplexSelector>>) -> Seq<Seq<ComplexModel>> {
    Seq::new(v.len(), |i: int| list_model_of(v[i]@))
}

/// Appends the k-th element of every inner vector from a position on.
fn fv_row_exec(qs: &Vec<Vec<ComplexSelector>>, i: usize, k: usize, out: &mut Vec<ComplexSelector>)
    requires
        i <= qs@.len(),
    ensures
        list_model_of(final(out)@) == list_model_of(old(out)@) + spec_fv_row(
            lists_model(qs@).subrange(i as int, qs@.len() as int),
            k as int,
        ),
    decreases qs@.len() - i,
{
    let ghost sub = lists_model(qs@).subrange(i as int, qs@.len() as int);
    if i == qs.len() {
        proof {
            assert(sub =~= Seq::<Seq<ComplexModel>>::empty());
            assert(list_model_of(out@) =~= list_model_of(old(out)@) + spec_fv_row(sub, k as int));
        }
        return ;
    }
    proof {
        assert(sub[0] == lists_model(qs@)[i as int]);
        assert(sub.subrange(1, sub.len() as int) =~= lists_model(qs@).subrange(
            i + 1,
            qs@.len() as int,
        ));
    }
    if k < qs[i].len() {
        let ghost b4: Seq<ComplexModel> = list_model_of(out@);
        let nc = qs[i][k].clone_complex();
        out.push(nc);
        proof {
            assert(list_model_of(out@) =~= b4.push(lists_model(qs@)[i as int][k as int]));
        }
    }
    fv_row_exec(qs, i + 1, k, out);
    proof {
        assert(list_model_of(out@) =~= list_model_of(old(out)@) + spec_fv_row(sub, k as int));
    }
}

/// Flattens expansions vertically: the first members of every expansion,
/// then the second members, and so on.
pub fn flatten_vertically(qs: &Vec<Vec<ComplexSelector>>) -> (r: Vec<ComplexSelector>)
    ensures
        list_model_of(r@) == spec_flatten_vertically(lists_model(qs@), 0),
{
    let maxn = max_len_exec(qs, 0);
    proof {
        assert(lists_model(qs@).subrange(0, qs@.len() as int) =~= lists_model(qs@));
    }
    let mut out: Vec<ComplexSelector> = Vec::new();
    let mut k: usize = 0;
    #[verifier::loop_isolation(false)]
    while k < maxn
        invariant
            k <= maxn,
            maxn == spec_max_len(lists_model(qs@)),
            spec_flatten_vertically(lists_model(qs@), 0) == list_model_of(out@)
                + spec_flatten_vertically(lists_model(qs@), k as int),
        decreases maxn - k,
    {
        fv_row_exec(qs, 0, k, &mut out);
        proof {
            assert(lists_model(qs@).subrange(0, qs@.len() as int) =~= lists_model(qs@));
        }
        k = k + 1;
    }
    proof {
        assert(spec_flatten_vertically(lists_model(qs@), maxn as int) == Seq::<
            ComplexModel,
        >::empty());
        assert(list_model_of(out@) =~= spec_flatten_vertically(lists_model(qs@), 0));
    }
    out
}

impl SelectorList {
    /// Returns a new list with every parent selector replaced by the
    /// given parent. With no parent, a list that names the parent
    /// selector is an error, and one that does not is returned as it
    /// stands; with `implicit_parent`, complex selectors without an
    /// explicit parent selector are prefixed by each parent complex.
    pub fn resolve_parent_selectors(
        &self,
        parent: Option<&SelectorList>,
        implicit_parent: bool,
    ) -> (res: Result<SelectorList, crate::error::SassError>)
        ensures
            match spec_resolve_list(
                self@,
                match parent {
                    Some(p) => Some(p@),
                    None => None,
                },
                implicit_parent,
            ) {
                Ok(l) => res matches Ok(out) && out@ == l,
                Err(k) => res matches Err(e) && e.kind == k,
            },
    {
        match parent {
            None => {
                if self.contains_parent_selector() {
                    Err(
                        crate::error::SassError::new(
                            crate::error::ErrorKind::Parent,
                            String::from_str(
                                "Top-level selectors may not contain the parent selector \"&\".",
                            ),
                        ),
                    )
                } else {
                    Ok(self.clone_list())
                }
            },
            Some(p) => {
                let mut qs: Vec<Vec<ComplexSelector>> = Vec::new();
                let mut i: usize = 0;
                #[verifier::loop_isolation(false)]
                while i < self.components.len()
                    invariant
                        i <= self.components@.len(),
                        lists_model(qs@).len() == i,
                        forall|l: int|
                            0 <= l < i ==> #[trigger] lists_model(qs@)[l]
                                == spec_resolve_complex(self@[l], p@, implicit_parent),
                    decreases self.components@.len() - i,
                {
                    let expansion = self.components[i].resolve_against(p, implicit_parent);
                    let ghost b4: Seq<Seq<ComplexModel>> = lists_model(qs@);
                    qs.push(expansion);
                    proof {
                        assert(lists_model(qs@) =~= b4.push(
                            spec_resolve_complex(self@[i as int], p@, implicit_parent),
                        ));
                    }
                    i = i + 1;
                }
                let flat = flatten_vertically(&qs);
                let r = SelectorList { components: flat };
                proof {
                    assert(lists_model(qs@) =~= Seq::new(
                        self@.len(),
                        |l: int| spec_resolve_complex(self@[l], p@, implicit_parent),
                    ));
                    assert(r@ =~= list_model_of(flat@));
                }
                Ok(r)
            },
        }
    }
}


/// How an attribute matcher is written.
pub open spec fn spec_attr_matcher(k: crate::selector::AttributeKind) -> Seq<char> {
    match k {
        crate::selector::AttributeKind::Any => ""@,
        crate::selector::AttributeKind::Equals => "="@,
        crate::selector::AttributeKind::InList => "~="@,
        crate::selector::AttributeKind::BeginsWithHyphenOrExact => "|="@,
        crate::selector::AttributeKind::StartsWith => "^="@,
        crate::selector::AttributeKind::EndsWith => "$="@,
        crate::selector::AttributeKind::Contains => "*="@,
    }
}

/// How one simple selector is written.
pub open spec fn spec_simple_string(s: SimpleModel) -> Seq<char> {
    match s {
        SimpleModel::Parent(sfx) => "&"@ + sfx,
        SimpleModel::Type(n) => n,
        SimpleModel::Id(n) => "#"@ + n,
        SimpleModel::Class(n) => "."@ + n,
        SimpleModel::Universal => "*"@,
        SimpleModel::Placeholder(n) => "%"@ + n,
        SimpleModel::Attribute(a) => "["@ + a.attr + spec_attr_matcher(a.kind) + a.value + (
        if a.case_sensitive {
            ""@
        } else {
            " i"@
        }) + "]"@,
        SimpleModel::Pseudo { name, is_element, arg } => (if is_element {
            "::"@
        } else {
            ":"@
        }) + name + (if arg.len() > 0 {
            "("@ + arg + ")"@
        } else {
            ""@
        }),
    }
}

/// How a compound selector is written: its parts, one after the other.
pub open spec fn spec_compound_string(k: CompoundModel) -> Seq<char>
    decreases k.len(),
{
    if k.len() == 0 {
        Seq::empty()
    } else {
        spec_simple_string(k[0]) + spec_compound_string(k.subrange(1, k.len() as int))
    }
}

/// How one component is written: a compound's text, or a combinator's
/// glyph.
pub open spec fn spec_component_string(c: ComponentModel) -> Seq<char> {
    match c {
        ComponentModel::Compound(k) => spec_compound_string(k),
        ComponentModel::Combinator(cb) => match cb {
            Combinator::Child => ">"@,
            Combinator::NextSibling => "+"@,
            Combinator::FollowingSibling => "~"@,
        },
    }
}

/// Appends the text of one simple selector.
fn push_simple(s: &SimpleSelector, out: &mut Vec<char>)
    ensures
        final(out)@ == old(out)@ + spec_simple_string(s@),
{
    proof {
        reveal_strlit("&");
        reveal_strlit("#");
        reveal_strlit(".");
        reveal_strlit("*");
        reveal_strlit("%");
        reveal_strlit(" i");
        reveal_strlit("::");
        reveal_strlit(":");
        reveal_strlit("(");
        reveal_strlit(")");
        reveal_strlit("[");
        reveal_strlit("]");
        assert("&"@ =~= seq!['&']);
        assert("#"@ =~= seq!['#']);
        assert("."@ =~= seq!['.']);
        assert("*"@ =~= seq!['*']);
        assert("%"@ =~= seq!['%']);
        assert(" i"@ =~= seq![' ', 'i']);
        assert("::"@ =~= seq![':', ':']);
        assert(":"@ =~= seq![':']);
        assert("("@ =~= seq!['(']);
        assert(")"@ =~= seq![')']);
        assert("["@ =~= seq!['[']);
        assert("]"@ =~= seq![']']);
        reveal_strlit("");
        assert(""@ =~= Seq::<char>::empty());
    }
    match s {
        SimpleSelector::Parent(sfx) => {
            out.push('&');
            push_string_chars(sfx, out);
        },
        SimpleSelector::Type(n) => {
            push_string_chars(n, out);
        },
        SimpleSelector::Id(n) => {
            out.push('#');
            push_string_chars(n, out);
        },
        SimpleSelector::Class(n) => {
            out.push('.');
            push_string_chars(n, out);
        },
        SimpleSelector::Universal => {
            out.push('*');
        },
        SimpleSelector::Placeholder(n) => {
            out.push('%');
            push_string_chars(n, out);
        },
        SimpleSelector::Attribute(a) => {
            out.push('[');
            push_string_chars(&a.attr, out);
            let glyph: &str = match a.kind {
                crate::selector::AttributeKind::Any => "",
                crate::selector::AttributeKind::Equals => "=",
                crate::selector::AttributeKind::InList => "~=",
                crate::selector::AttributeKind::BeginsWithHyphenOrExact => "|=",
                crate::selector::AttributeKind::StartsWith => "^=",
                crate::selector::AttributeKind::EndsWith => "$=",
                crate::selector::AttributeKind::Contains => "*=",
            };
            proof {
                assert(glyph@ == spec_attr_matcher(a.kind));
            }
            crate::serialize::push_str_chars(glyph, out);
            push_string_chars(&a.value, out);
            if !a.case_sensitive {
                crate::serialize::push_str_chars(" i", out);
                proof {
                    reveal_strlit(" i");
                }
            }
            out.push(']');
            proof {
                assert(out@ =~= old(out)@ + spec_simple_string(s@));
            }
        },
        SimpleSelector::Pseudo { name, is_element, arg } => {
            out.push(':');
            if *is_element {
                out.push(':');
            }
            push_string_chars(name, out);
            if arg.as_str().unicode_len() > 0 {
                out.push('(');
                push_string_chars(arg, out);
                out.push(')');
            }
            proof {
                assert(out@ =~= old(out)@ + spec_simple_string(s@));
            }
        },
    }
    proof {
        assert(out@ =~= old(out)@ + spec_simple_string(s@));
    }
}

/// Appends every character of a string.
fn push_string_chars(s: &String, out: &mut Vec<char>)
    ensures
        final(out)@ == old(out)@ + s@,
{
    crate::serialize::push_str_chars(s.as_str(), out);
}

/// The text of one component.
pub fn component_to_string(c: &ComplexSelectorComponent) -> (r: String)
    ensures
        r@ == spec_component_string(c@),
{
    let mut out: Vec<char> = Vec::new();
    proof {
        reveal_strlit(">");
        reveal_strlit("+");
        reveal_strlit("~");
        assert(">"@ =~= seq!['>']);
        assert("+"@ =~= seq!['+']);
        assert("~"@ =~= seq!['~']);
    }
    match c {
        ComplexSelectorComponent::Compound(k) => {
            proof {
                assert(k@.subrange(0, k@.len() as int) =~= k@);
            }
            let mut t: usize = 0;
            #[verifier::loop_isolation(false)]
            while t < k.parts.len()
                invariant
                    t <= k.parts@.len(),
                    spec_compound_string(k@) =~= out@ + spec_compound_string(
                        k@.subrange(t as int, k@.len() as int),
                    ),
                decreases k.parts@.len() - t,
            {
                proof {
                    assert(k@[t as int] == k.parts@[t as int]@);
                    assert(k@.subrange(t as int, k@.len() as int)[0] == k@[t as int]);
                    assert(k@.subrange(t as int, k@.len() as int).subrange(
                        1,
                        k@.subrange(t as int, k@.len() as int).len() as int,
                    ) =~= k@.subrange(t + 1, k@.len() as int));
                }
                push_simple(&k.parts[t], &mut out);
                t = t + 1;
            }
            proof {
                assert(k@.subrange(k@.len() as int, k@.len() as int) =~= Seq::<
                    SimpleModel,
                >::empty());
                assert(out@ =~= spec_component_string(c@));
            }
        },
        ComplexSelectorComponent::Combinator(cb) => {
            match cb {
                Combinator::Child => {
                    out.push('>');
                },
                Combinator::NextSibling => {
                    out.push('+');
                },
                Combinator::FollowingSibling => {
                    out.push('~');
                },
            }
            proof {
                assert(out@ =~= spec_component_string(c@));
            }
        },
    }
    crate::strutil::chars_to_string(&out)
}

/// The value a selector list reads back as: a comma-separated list of
/// space-separated lists, one unquoted string per component.
pub open spec fn spec_sass_list(l: Seq<ComplexModel>) -> ValueModel {
    ValueModel::List(
        Seq::new(
            l.len(),
            |i: int|
                ValueModel::List(
                    Seq::new(
                        l[i].components.len(),
                        |j: int|
                            ValueModel::Ident(
                                spec_component_string(l[i].components[j]),
                                QuoteKind::Unquoted,
                            ),
                    ),
                    ListSeparator::Space,
                    Brackets::Unbracketed,
                ),
        ),
        ListSeparator::Comma,
        Brackets::Unbracketed,
    )
}

impl SelectorList {
    /// The list as a script value, as a selector-reading function
    /// reports it.
    pub fn to_sass_list(&self) -> (r: Value)
        ensures
            r@ == spec_sass_list(self@),
    {
        broadcast use crate::value::lemma_seq_value_model_len, crate::value::lemma_seq_value_model_index;

        let mut outer: Vec<Value> = Vec::new();
        let mut i: usize = 0;
        #[verifier::loop_isolation(false)]
        while i < self.components.len()
            invariant
                i <= self.components@.len(),
                seq_value_model(outer@).len() == i,
                forall|x: int|
                    0 <= x < i ==> #[trigger] seq_value_model(outer@)[x]
                        == spec_sass_list(self@)->List_0[x],
            decreases self.components@.len() - i,
        {
            let c = &self.components[i];
            let mut inner: Vec<Value> = Vec::new();
            let mut j: usize = 0;
            #[verifier::loop_isolation(false)]
            while j < c.components.len()
                invariant
                    j <= c.components@.len(),
                    seq_value_model(inner@).len() == j,
                    forall|y: int|
                        0 <= y < j ==> #[trigger] seq_value_model(inner@)[y] == (
                        ValueModel::Ident(
                            spec_component_string(self@[i as int].components[y]),
                            QuoteKind::Unquoted,
                        )),
                decreases c.components@.len() - j,
            {
                let text = component_to_string(&c.components[j]);
                proof {
                    assert(self@[i as int].components[j as int] == c.components@[j as int]@);
                }
                let ghost b4: Seq<ValueModel> = seq_value_model(inner@);
                inner.push(Value::Ident(text, QuoteKind::Unquoted));
                proof {
                    assert(seq_value_model(inner@) =~= b4.push(
                        ValueModel::Ident(
                            spec_component_string(self@[i as int].components[j as int]),
                            QuoteKind::Unquoted,
                        ),
                    ));
                }
                j = j + 1;
            }
            let ghost b4o: Seq<ValueModel> = seq_value_model(outer@);
            let entry = Value::List(inner, ListSeparator::Space, Brackets::Unbracketed);
            proof {
                assert(value_model(entry) == spec_sass_list(self@)->List_0[i as int]) by {
                    assert(value_model(entry)->List_0 =~= spec_sass_list(
                        self@,
                    )->List_0[i as int]->List_0);
                }
            }
            outer.push(entry);
            proof {
                assert(seq_value_model(outer@) =~= b4o.push(value_model(entry)));
            }
            i = i + 1;
        }
        let r = Value::List(outer, ListSeparator::Comma, Brackets::Unbracketed);
        proof {
            assert(r@->List_0 =~= spec_sass_list(self@)->List_0);
        }
        r
    }
}


} // verus!
