use grass::selector::{CompoundSelector, SimpleSelector};
use grass::selector_list::{
    flatten_vertically, ComplexSelector, ComplexSelectorComponent, SelectorList,
};

fn type_sel(name: &str) -> SimpleSelector {
    SimpleSelector::Type(String::from(name))
}

fn compound(names: &[&str]) -> CompoundSelector {
    CompoundSelector { parts: names.iter().map(|n| type_sel(n)).collect() }
}

fn complex_of(names: &[&str]) -> ComplexSelector {
    ComplexSelector {
        components: names
            .iter()
            .map(|n| ComplexSelectorComponent::Compound(compound(&[n])))
            .collect(),
        line_break: false,
    }
}

fn list_of(rows: &[&[&str]]) -> SelectorList {
    SelectorList { components: rows.iter().map(|r| complex_of(r)).collect() }
}

fn parent_complex(suffix: &str, rest: &[&str]) -> ComplexSelector {
    let mut parts = vec![SimpleSelector::Parent(String::from(suffix))];
    for r in rest {
        parts.push(type_sel(r));
    }
    ComplexSelector {
        components: vec![ComplexSelectorComponent::Compound(CompoundSelector { parts })],
        line_break: false,
    }
}

fn render(l: &SelectorList) -> Vec<Vec<String>> {
    l.components
        .iter()
        .map(|c| {
            c.components
                .iter()
                .map(|comp| match comp {
                    ComplexSelectorComponent::Compound(k) => k
                        .parts
                        .iter()
                        .map(|s| match s {
                            SimpleSelector::Type(n) => n.clone(),
                            SimpleSelector::Parent(sfx) => format!("&{}", sfx),
                            SimpleSelector::Class(n) => format!(".{}", n),
                            _ => String::from("?"),
                        })
                        .collect::<Vec<_>>()
                        .join(""),
                    ComplexSelectorComponent::Combinator(_) => String::from(">"),
                })
                .collect()
        })
        .collect()
}

#[test]
fn empty_list_reports_empty() {
    let l = SelectorList::new();
    assert!(l.is_empty());
    assert!(!list_of(&[&["a"]]).is_empty());
}

#[test]
fn parent_detection() {
    assert!(!list_of(&[&["a"]]).contains_parent_selector());
    let with_parent = SelectorList { components: vec![parent_complex("", &[])] };
    assert!(with_parent.contains_parent_selector());
}

#[test]
fn placeholders_are_invisible() {
    let ph = SelectorList {
        components: vec![ComplexSelector {
            components: vec![ComplexSelectorComponent::Compound(CompoundSelector {
                parts: vec![SimpleSelector::Placeholder(String::from("x"))],
            })],
            line_break: false,
        }],
    };
    assert!(ph.is_invisible());
    assert!(!list_of(&[&["a"]]).is_invisible());
}

#[test]
fn superselector_holds_for_subsets() {
    // `a` matches everything `a.x` matches
    let a = SelectorList {
        components: vec![ComplexSelector {
            components: vec![ComplexSelectorComponent::Compound(compound(&["a"]))],
            line_break: false,
        }],
    };
    let ax = SelectorList {
        components: vec![ComplexSelector {
            components: vec![ComplexSelectorComponent::Compound(CompoundSelector {
                parts: vec![type_sel("a"), SimpleSelector::Class(String::from("x"))],
            })],
            line_break: false,
        }],
    };
    assert!(a.is_superselector(&ax));
    assert!(!ax.is_superselector(&a));
    // the descendant relation may skip context on the sub side
    let deep = list_of(&[&["q", "a"]]);
    assert!(a.is_superselector(&deep));
}

#[test]
fn unify_merges_and_both_sides_cover_the_result() {
    let cls = |n: &str| SelectorList {
        components: vec![ComplexSelector {
            components: vec![ComplexSelectorComponent::Compound(CompoundSelector {
                parts: vec![SimpleSelector::Class(String::from(n))],
            })],
            line_break: false,
        }],
    };
    let a = cls("x");
    let b = cls("y");
    let u = a.unify(&b).expect("the lists must unify");
    assert_eq!(render(&u), vec![vec![String::from(".x.y")]]);
    // the unified list matches only what both sides match
    assert!(a.is_superselector(&u));
    assert!(b.is_superselector(&u));
}

#[test]
fn unify_refuses_two_type_names() {
    // one element cannot be two different type selectors at once
    let a = list_of(&[&["a"]]);
    let b = list_of(&[&["b"]]);
    assert!(a.unify(&b).is_none());
    // with shared tails, the contexts merge compound by compound
    let ctx = |cls: &str| ComplexSelector {
        components: vec![
            ComplexSelectorComponent::Compound(CompoundSelector {
                parts: vec![SimpleSelector::Class(String::from(cls))],
            }),
            ComplexSelectorComponent::Compound(compound(&["x"])),
        ],
        line_break: false,
    };
    let x = SelectorList { components: vec![ctx("p")] };
    let y = SelectorList { components: vec![ctx("q")] };
    let u = x.unify(&y).expect("the tails agree, so the lists unify");
    assert_eq!(
        render(&u),
        vec![vec![String::from(".p.q"), String::from("x")]]
    );
    assert!(x.is_superselector(&u));
    assert!(y.is_superselector(&u));
}

#[test]
fn resolve_without_parent_is_identity() {
    let l = list_of(&[&["a", "b"]]);
    let r = l.resolve_parent_selectors(None, true).unwrap();
    assert_eq!(render(&r), render(&l));
    // resolving a second time changes nothing: idempotence once no
    // parent selector is left
    let r2 = r.resolve_parent_selectors(None, true).unwrap();
    assert_eq!(render(&r2), render(&r));
}

#[test]
fn resolve_with_parent_prefixes_implicitly() {
    // `b` inside `a` becomes `a b`
    let parent = list_of(&[&["a"]]);
    let l = list_of(&[&["b"]]);
    let r = l.resolve_parent_selectors(Some(&parent), true).unwrap();
    assert_eq!(render(&r), vec![vec![String::from("a"), String::from("b")]]);
}

#[test]
fn resolve_replaces_the_parent_selector() {
    // `& c` inside `a b` becomes `a b c`
    let parent = list_of(&[&["a", "b"]]);
    let l = SelectorList {
        components: vec![ComplexSelector {
            components: vec![
                ComplexSelectorComponent::Compound(CompoundSelector {
                    parts: vec![SimpleSelector::Parent(String::new())],
                }),
                ComplexSelectorComponent::Compound(compound(&["c"])),
            ],
            line_break: false,
        }],
    };
    let r = l.resolve_parent_selectors(Some(&parent), true).unwrap();
    assert_eq!(
        render(&r),
        vec![vec![String::from("a"), String::from("b"), String::from("c")]]
    );
}

#[test]
fn resolve_appends_a_parent_suffix() {
    // `&__x` under `.blk` becomes `.blk__x`
    let parent = SelectorList {
        components: vec![ComplexSelector {
            components: vec![ComplexSelectorComponent::Compound(CompoundSelector {
                parts: vec![SimpleSelector::Class(String::from("blk"))],
            })],
            line_break: false,
        }],
    };
    let l = SelectorList { components: vec![parent_complex("__x", &[])] };
    let r = l.resolve_parent_selectors(Some(&parent), true).unwrap();
    assert_eq!(render(&r), vec![vec![String::from(".blk__x")]]);
}

#[test]
fn resolve_without_parent_rejects_the_parent_selector() {
    let l = SelectorList { components: vec![parent_complex("", &[])] };
    let e = l.resolve_parent_selectors(None, true).unwrap_err();
    assert_eq!(e.kind, grass::error::ErrorKind::Parent);
}

#[test]
fn sass_list_form_of_a_selector() {
    let l = list_of(&[&["a", "b"], &["c"]]);
    let v = l.to_sass_list();
    assert_eq!(v.to_css_string(), "a b, c");
    assert_eq!(grass::builtin::length(&v).unwrap().to_css_string(), "2");
}

#[test]
fn vertical_flattening_interleaves_rows() {
    // expansions [a1 a2] and [b1] flatten to a1 b1 a2: heads first
    let qs = vec![
        vec![complex_of(&["a1"]), complex_of(&["a2"])],
        vec![complex_of(&["b1"])],
    ];
    let flat = flatten_vertically(&qs);
    let shown: Vec<String> = flat
        .iter()
        .map(|c| match &c.components[0] {
            ComplexSelectorComponent::Compound(k) => match &k.parts[0] {
                SimpleSelector::Type(n) => n.clone(),
                _ => String::from("?"),
            },
            _ => String::from("?"),
        })
        .collect();
    assert_eq!(shown, vec!["a1", "b1", "a2"]);
}

#[test]
fn multiple_parents_cross_multiple_nested() {
    // `& c` under the parents `a, b` gives `a c, b c`
    let parent = list_of(&[&["a"], &["b"]]);
    let l = SelectorList {
        components: vec![ComplexSelector {
            components: vec![
                ComplexSelectorComponent::Compound(CompoundSelector {
                    parts: vec![SimpleSelector::Parent(String::new())],
                }),
                ComplexSelectorComponent::Compound(compound(&["c"])),
            ],
            line_break: false,
        }],
    };
    let r = l.resolve_parent_selectors(Some(&parent), true).unwrap();
    assert_eq!(
        render(&r),
        vec![
            vec![String::from("a"), String::from("c")],
            vec![String::from("b"), String::from("c")]
        ]
    );
}
