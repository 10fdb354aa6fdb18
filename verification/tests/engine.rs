use grass::atrule::{AtRule, AtRuleKind};
use grass::common::Pos;
use grass::css_mode::{css_mode_error, ForbiddenConstruct};
use grass::error::ErrorKind;
use grass::lexer::{Lexer, Token, TokenKind};
use grass::number::Number;
use grass::scope::Scope;
use grass::units::Unit;
use grass::value::{QuoteKind, Value};
use grass::value_parse::value_from_tokens;

fn lex(src: &str) -> Vec<Token> {
    let mut l = Lexer::new(src);
    let mut out = Vec::new();
    loop {
        match l.next() {
            Ok(Some(t)) => out.push(t),
            Ok(None) => return out,
            Err(e) => panic!("lexing failed: {:?}", e),
        }
    }
}

#[test]
fn lexer_classifies_tokens() {
    let toks = lex("a{color:red;}");
    assert!(matches!(&toks[0].kind, TokenKind::Ident(s) if s == "a"));
    assert!(matches!(&toks[1].kind, TokenKind::Symbol(_)));
    let toks2 = lex("12px");
    assert!(matches!(&toks2[0].kind, TokenKind::Number(s) if s == "12"));
    assert!(matches!(&toks2[1].kind, TokenKind::UnitToken(Unit::Px)));
    let toks3 = lex("$width");
    assert!(matches!(&toks3[0].kind, TokenKind::Variable(s) if s == "width"));
    let toks4 = lex("true");
    assert!(matches!(&toks4[0].kind, TokenKind::Keyword(_)));
    let toks5 = lex("@media");
    assert!(matches!(&toks5[0].kind, TokenKind::AtRuleName(s) if s == "media"));
}

#[test]
fn lexer_drops_comments_to_a_newline() {
    let toks = lex("a/* hi */b");
    assert!(matches!(&toks[0].kind, TokenKind::Ident(s) if s == "a"));
    assert!(matches!(&toks[1].kind, TokenKind::Whitespace(_)));
    assert!(matches!(&toks[2].kind, TokenKind::Ident(s) if s == "b"));
}

#[test]
fn lexer_drops_line_comments_entirely() {
    // the line comment itself leaves no token; the newline still lexes
    let toks = lex("a// gone
b");
    assert!(matches!(&toks[0].kind, TokenKind::Ident(s) if s == "a"));
    assert!(matches!(&toks[1].kind, TokenKind::Whitespace(_)));
    assert!(matches!(&toks[2].kind, TokenKind::Ident(s) if s == "b"));
    assert_eq!(toks.len(), 3);
}

#[test]
fn lexer_rejects_an_unknown_character() {
    let mut l = Lexer::new("a ? b");
    assert!(matches!(l.next(), Ok(Some(_))));
    assert!(matches!(l.next(), Ok(Some(_))));
    let e = l.next().unwrap_err();
    assert_eq!(e.kind, ErrorKind::Syntax);
}

#[test]
fn lexer_reads_interpolation_marks() {
    let toks = lex("a#{b}");
    assert!(matches!(&toks[0].kind, TokenKind::Ident(s) if s == "a"));
    assert!(matches!(&toks[1].kind, TokenKind::Interpolation));
    assert!(matches!(&toks[2].kind, TokenKind::Ident(s) if s == "b"));
}

#[test]
fn lexer_reads_attribute_selectors() {
    let toks = lex("[href]");
    match &toks[0].kind {
        TokenKind::AttrSelector(a) => {
            assert_eq!(a.attr, "href");
            assert!(a.case_sensitive);
        }
        other => panic!("expected an attribute selector, got {:?}", other),
    }
}

#[test]
fn scope_shadows_and_finds_the_last_write() {
    let mut s = Scope::new();
    s.insert_var(String::from("x"), Value::True);
    s.insert_var(String::from("x"), Value::False);
    assert!(matches!(s.get_var("x"), Some(Value::False)));
    assert!(s.get_var("y").is_none());
}

#[test]
fn parsing_evaluates_variables_from_the_scope() {
    let mut s = Scope::new();
    s.insert_var(
        String::from("x"),
        Value::Dimension(Number::from_integer(10), Unit::NoUnit),
    );
    let toks = lex("$x");
    let (v, _) = value_from_tokens(&toks, 0, &s);
    assert_eq!(v.unwrap().to_css_string(), "10");
}

#[test]
fn comma_lists_parse_flat() {
    let s = Scope::new();
    let toks = lex("1, 2, 3");
    let (v, _) = value_from_tokens(&toks, 0, &s);
    let v = v.unwrap();
    assert_eq!(grass::builtin::length(&v).unwrap().to_css_string(), "3");
    assert_eq!(v.to_css_string(), "1, 2, 3");
}

#[test]
fn space_lists_parse_flat() {
    let s = Scope::new();
    let toks = lex("a b c");
    let (v, _) = value_from_tokens(&toks, 0, &s);
    let v = v.unwrap();
    assert_eq!(grass::builtin::length(&v).unwrap().to_css_string(), "3");
    assert_eq!(v.to_css_string(), "a b c");
}

#[test]
fn terminators_stay_unconsumed() {
    let s = Scope::new();
    let toks = lex("1, 2;");
    let (v, end) = value_from_tokens(&toks, 0, &s);
    assert_eq!(v.unwrap().to_css_string(), "1, 2");
    assert!(matches!(
        &toks[end].kind,
        TokenKind::Symbol(grass::common::Symbol::SemiColon)
    ));
}

#[test]
fn undefined_variables_are_name_errors() {
    let s = Scope::new();
    let toks = lex("$missing");
    let (v, _) = value_from_tokens(&toks, 0, &s);
    assert_eq!(v.unwrap_err().kind, ErrorKind::Name);
}

#[test]
fn unclosed_parens_are_syntax_errors() {
    let s = Scope::new();
    let toks = lex("(1");
    let (v, _) = value_from_tokens(&toks, 0, &s);
    assert_eq!(v.unwrap_err().kind, ErrorKind::Syntax);
}

#[test]
fn parsing_builds_and_reduces_arithmetic() {
    let s = Scope::new();
    let toks = lex("1px + 2px");
    let (v, _) = value_from_tokens(&toks, 0, &s);
    let reduced = v.unwrap().eval().unwrap();
    assert_eq!(reduced.to_css_string(), "3px");
}

#[test]
fn parsing_multiplies_through_variables() {
    // the value a function body computes: a variable doubled
    let mut s = Scope::new();
    s.insert_var(
        String::from("n"),
        Value::Dimension(Number::from_integer(10), Unit::NoUnit),
    );
    let toks = lex("$n * 2");
    let (v, _) = value_from_tokens(&toks, 0, &s);
    assert_eq!(v.unwrap().eval().unwrap().to_css_string(), "20");
}

#[test]
fn charset_and_content_rules_parse_exactly() {
    let mut s = Scope::new();
    let toks = lex("\"utf-8\";");
    let (r, _) = AtRule::from_tokens(&AtRuleKind::Charset, Pos::new(), &toks, 0, &mut s);
    assert!(matches!(r.unwrap(), AtRule::Charset));
    let (r2, _) = AtRule::from_tokens(&AtRuleKind::Content, Pos::new(), &lex(""), 0, &mut s);
    assert!(matches!(r2.unwrap(), AtRule::Content));
}

#[test]
fn error_rule_aborts_with_the_message() {
    let mut s = Scope::new();
    let toks = lex("oops;");
    let (r, _) = AtRule::from_tokens(&AtRuleKind::ErrorRule, Pos::new(), &toks, 0, &mut s);
    let e = r.unwrap_err();
    assert_eq!(e.kind, ErrorKind::User);
    assert_eq!(e.message, "oops");
}

#[test]
fn warn_and_debug_carry_their_message() {
    let mut s = Scope::new();
    let toks = lex("careful;");
    let (r, _) = AtRule::from_tokens(&AtRuleKind::Warn, Pos::new(), &toks, 0, &mut s);
    match r.unwrap() {
        AtRule::Warn(_, msg) => assert_eq!(msg, "careful"),
        _ => panic!("expected a warn rule"),
    }
}

#[test]
fn mixin_declarations_land_in_the_scope() {
    let mut s = Scope::new();
    let toks = lex("hov { color: red; }");
    let (r, _) = AtRule::from_tokens(&AtRuleKind::Mixin, Pos::new(), &toks, 0, &mut s);
    assert!(matches!(r.unwrap(), AtRule::Mixin(name, _) if name == "hov"));
    assert!(s.get_mixin_index("hov").is_some());
    assert!(s.get_mixin_index("other").is_none());
}

#[test]
fn function_declarations_land_in_the_scope() {
    let mut s = Scope::new();
    let toks = lex("dbl($n) { }");
    let (r, _) = AtRule::from_tokens(&AtRuleKind::Function, Pos::new(), &toks, 0, &mut s);
    assert!(matches!(r.unwrap(), AtRule::Function(name, _) if name == "dbl"));
    assert!(s.get_function_index("dbl").is_some());
}

#[test]
fn each_binds_rows_and_the_last_binding_persists() {
    let mut s = Scope::new();
    let toks = lex("$k in (1, 2) { }");
    let (r, _) = AtRule::from_tokens(&AtRuleKind::Each, Pos::new(), &toks, 0, &mut s);
    assert!(matches!(r.unwrap(), AtRule::Each(_)));
    // the iteration bound each row into the caller's scope in turn
    assert_eq!(s.get_var("k").unwrap().to_css_string(), "2");
}

#[test]
fn each_with_several_names_unpacks_rows() {
    let mut s = Scope::new();
    // scalar rows unpack as one-element rows: the extra name gets null
    let toks = lex("$a, $b in (1, 2) { }");
    let (r, _) = AtRule::from_tokens(&AtRuleKind::Each, Pos::new(), &toks, 0, &mut s);
    match r.unwrap() {
        AtRule::Each(e) => {
            assert_eq!(e.rows.len(), 2);
        }
        _ => panic!("expected an each rule"),
    }
    // the last row's bindings persist
    assert_eq!(s.get_var("a").unwrap().to_css_string(), "2");
    assert!(matches!(s.get_var("b"), Some(grass::value::Value::Null)));
}

#[test]
fn each_requires_a_variable_first() {
    let mut s = Scope::new();
    let toks = lex("k in (a, b) { }");
    let (r, _) = AtRule::from_tokens(&AtRuleKind::Each, Pos::new(), &toks, 0, &mut s);
    assert_eq!(r.unwrap_err().kind, ErrorKind::Syntax);
}

#[test]
fn include_keeps_name_and_content_and_checks_the_mixin() {
    let mut s = Scope::new();
    let decl = lex("hov { }");
    let (r0, _) = AtRule::from_tokens(&AtRuleKind::Mixin, Pos::new(), &decl, 0, &mut s);
    assert!(r0.is_ok());
    let inc = lex("hov { color: red; }");
    let (r, _) = AtRule::from_tokens(&AtRuleKind::Include, Pos::new(), &inc, 0, &mut s);
    match r.unwrap() {
        AtRule::Include(i) => {
            assert_eq!(i.name, "hov");
            assert!(!i.content.is_empty());
        }
        _ => panic!("expected an include"),
    }
    let missing = lex("nope;");
    let (r2, _) = AtRule::from_tokens(&AtRuleKind::Include, Pos::new(), &missing, 0, &mut s);
    assert_eq!(r2.unwrap_err().kind, ErrorKind::Name);
}

#[test]
fn at_root_keeps_its_selector_prelude() {
    let mut s = Scope::new();
    let toks = lex("b { c: 1; }");
    let (r, _) = AtRule::from_tokens(&AtRuleKind::AtRoot, Pos::new(), &toks, 0, &mut s);
    match r.unwrap() {
        AtRule::AtRoot(ar) => {
            assert!(matches!(&ar.selector[0].kind, TokenKind::Ident(n) if n == "b"));
            assert!(!ar.body.is_empty());
        }
        _ => panic!("expected an at-root rule"),
    }
}

#[test]
fn each_rule_coerces_its_rows() {
    let mut s = Scope::new();
    let toks = lex("$k in (a, b) { }");
    let (r, _) = AtRule::from_tokens(&AtRuleKind::Each, Pos::new(), &toks, 0, &mut s);
    match r.unwrap() {
        AtRule::Each(e) => {
            assert_eq!(e.vars, vec![String::from("k")]);
            assert_eq!(e.rows.len(), 2);
            assert_eq!(e.rows[0].to_css_string(), "a");
            assert_eq!(e.rows[1].to_css_string(), "b");
        }
        _ => panic!("expected an each rule"),
    }
}

#[test]
fn each_rule_names_every_binding() {
    let mut s = Scope::new();
    let toks = lex("$k, $v in (a, b) { }");
    let (r, _) = AtRule::from_tokens(&AtRuleKind::Each, Pos::new(), &toks, 0, &mut s);
    match r.unwrap() {
        AtRule::Each(e) => {
            assert_eq!(e.vars, vec![String::from("k"), String::from("v")]);
        }
        _ => panic!("expected an each rule"),
    }
}

#[test]
fn for_rule_evaluates_both_bounds() {
    let mut s = Scope::new();
    let toks = lex("$i from 1 through 3 { }");
    let (r, _) = AtRule::from_tokens(&AtRuleKind::For, Pos::new(), &toks, 0, &mut s);
    match r.unwrap() {
        AtRule::For(f) => {
            assert_eq!(f.var, "i");
            assert_eq!(f.from_val, 1);
            assert_eq!(f.to_val, 3);
            assert!(f.inclusive);
        }
        _ => panic!("expected a for rule"),
    }
}

#[test]
fn while_rule_keeps_its_condition_tokens() {
    let mut s = Scope::new();
    let toks = lex("$i < 3 { }");
    let (r, _) = AtRule::from_tokens(&AtRuleKind::While, Pos::new(), &toks, 0, &mut s);
    match r.unwrap() {
        AtRule::While(w) => {
            assert!(!w.cond.is_empty());
        }
        _ => panic!("expected a while rule"),
    }
}

#[test]
fn plain_css_diagnostics_are_exact() {
    assert_eq!(
        css_mode_error(ForbiddenConstruct::Operator).message,
        "Operators aren't allowed in plain CSS."
    );
    assert_eq!(
        css_mode_error(ForbiddenConstruct::SilentComment).message,
        "Silent comments aren't allowed in plain CSS."
    );
    assert_eq!(
        css_mode_error(ForbiddenConstruct::ScriptAtRule).message,
        "This at-rule isn't allowed in plain CSS."
    );
    assert_eq!(
        css_mode_error(ForbiddenConstruct::ScriptFunction).message,
        "This function isn't allowed in plain CSS."
    );
    assert_eq!(
        css_mode_error(ForbiddenConstruct::Parentheses).message,
        "Parentheses aren't allowed in plain CSS."
    );
    assert_eq!(
        css_mode_error(ForbiddenConstruct::Variable).message,
        "Sass variables aren't allowed in plain CSS."
    );
    assert_eq!(
        css_mode_error(ForbiddenConstruct::ParentSelector).message,
        "The parent selector isn't allowed in plain CSS."
    );
    assert_eq!(css_mode_error(ForbiddenConstruct::Operator).kind, ErrorKind::Mode);
}

#[test]
fn quoted_strings_parse_with_their_quote() {
    let s = Scope::new();
    let toks = lex("\"red\"");
    let (v, _) = value_from_tokens(&toks, 0, &s);
    match v.unwrap() {
        Value::Ident(text, q) => {
            assert_eq!(text, "red");
            assert_eq!(q, QuoteKind::Double);
        }
        _ => panic!("expected a string"),
    }
}
