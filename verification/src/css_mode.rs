//! Plain-CSS input mode: the constructs it rejects and the exact
//! diagnostic each one carries.

use vstd::prelude::*;
use crate::error::{ErrorKind, SassError};

verus! {

/// A construct that plain CSS input does not allow.
#[derive(Clone, Copy, Debug, PartialEq, Eq, Structural)]
pub enum ForbiddenConstruct {
    SilentComment,
    ScriptAtRule,
    ScriptFunction,
    Operator,
    Parentheses,
    Variable,
    ParentSelector,
}

/// The diagnostic each forbidden construct carries.
pub open spec fn spec_css_mode_message(c: ForbiddenConstruct) -> Seq<char> {
    match c {
        ForbiddenConstruct::SilentComment => "Silent comments aren't allowed in plain CSS."@,
        ForbiddenConstruct::ScriptAtRule => "This at-rule isn't allowed in plain CSS."@,
        ForbiddenConstruct::ScriptFunction => "This function isn't allowed in plain CSS."@,
        ForbiddenConstruct::Operator => "Operators aren't allowed in plain CSS."@,
        ForbiddenConstruct::Parentheses => "Parentheses aren't allowed in plain CSS."@,
        ForbiddenConstruct::Variable => "Sass variables aren't allowed in plain CSS."@,
        ForbiddenConstruct::ParentSelector => "The parent selector isn't allowed in plain CSS."@,
    }
}

/// The error raised when plain CSS input holds a forbidden construct.
pub fn css_mode_error(c: ForbiddenConstruct) -> (e: SassError)
    ensures
        e.kind == ErrorKind::Mode,
        e.message@ == spec_css_mode_message(c),
{
    let text: &str = match c {
        ForbiddenConstruct::SilentComment => "Silent comments aren't allowed in plain CSS.",
        ForbiddenConstruct::ScriptAtRule => "This at-rule isn't allowed in plain CSS.",
        ForbiddenConstruct::ScriptFunction => "This function isn't allowed in plain CSS.",
        ForbiddenConstruct::Operator => "Operators aren't allowed in plain CSS.",
        ForbiddenConstruct::Parentheses => "Parentheses aren't allowed in plain CSS.",
        ForbiddenConstruct::Variable => "Sass variables aren't allowed in plain CSS.",
        ForbiddenConstruct::ParentSelector => "The parent selector isn't allowed in plain CSS.",
    };
    SassError::new(ErrorKind::Mode, String::from_str(text))
}

/// The rejected constructs carry exactly the listed diagnostics: each of
/// the seven constructs maps to its own message and to no other.
pub proof fn lemma_css_mode_messages_exact(c: ForbiddenConstruct)
    ensures
        spec_css_mode_message(c) == "Silent comments aren't allowed in plain CSS."@ <==> c
            == ForbiddenConstruct::SilentComment,
        spec_css_mode_message(c) == "This at-rule isn't allowed in plain CSS."@ <==> c
            == ForbiddenConstruct::ScriptAtRule,
        spec_css_mode_message(c) == "This function isn't allowed in plain CSS."@ <==> c
            == ForbiddenConstruct::ScriptFunction,
        spec_css_mode_message(c) == "Operators aren't allowed in plain CSS."@ <==> c
            == ForbiddenConstruct::Operator,
        spec_css_mode_message(c) == "Parentheses aren't allowed in plain CSS."@ <==> c
            == ForbiddenConstruct::Parentheses,
        spec_css_mode_message(c) == "Sass variables aren't allowed in plain CSS."@ <==> c
            == ForbiddenConstruct::Variable,
        spec_css_mode_message(c) == "The parent selector isn't allowed in plain CSS."@ <==> c
            == ForbiddenConstruct::ParentSelector,
{
    reveal_strlit("Silent comments aren't allowed in plain CSS.");
    reveal_strlit("This at-rule isn't allowed in plain CSS.");
    reveal_strlit("This function isn't allowed in plain CSS.");
    reveal_strlit("Operators aren't allowed in plain CSS.");
    reveal_strlit("Parentheses aren't allowed in plain CSS.");
    reveal_strlit("Sass variables aren't allowed in plain CSS.");
    reveal_strlit("The parent selector isn't allowed in plain CSS.");
    assert("Silent comments aren't allowed in plain CSS."@.len() >= 0);
    assert("This at-rule isn't allowed in plain CSS."@.len() >= 0);
    assert("This function isn't allowed in plain CSS."@.len() >= 0);
    assert("Operators aren't allowed in plain CSS."@.len() >= 0);
    assert("Parentheses aren't allowed in plain CSS."@.len() >= 0);
    assert("Sass variables aren't allowed in plain CSS."@.len() >= 0);
    assert("The parent selector isn't allowed in plain CSS."@.len() >= 0);
    assert("This at-rule isn't allowed in plain CSS."@[0] == 'T');
    assert("Parentheses aren't allowed in plain CSS."@[0] == 'P');
}

} // verus!
