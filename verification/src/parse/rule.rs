//! The rules of a grammar.
use vstd::prelude::*;

use super::token::Token;

verus! {

/// One way for a rule of kind `R` over tokens of kind `T` to match.
#[derive(Debug)]
pub enum RuleType<R, T> {
    /// Single, unrepeatable rule
    Rule(R),
    /// Rule can repeat 0+ times in a row, greedily consuming
    RepeatableRule(R),
    /// A sequence of rules that need to be matched
    Sequence(Vec<R>),
    /// Single Token
    Token(T),
}

/// One way for a rule to match, with the rules of a sequence as a sequence.
#[verifier::ext_equal]
pub enum RuleTypeView<R, T> {
    Rule(R),
    RepeatableRule(R),
    Sequence(Seq<R>),
    Token(T),
}

/// The view of one way for a rule to match.
pub open spec fn rule_type_view<R, T>(t: RuleType<R, T>) -> RuleTypeView<R, T> {
    match t {
        RuleType::Rule(r) => RuleTypeView::Rule(r),
        RuleType::RepeatableRule(r) => RuleTypeView::RepeatableRule(r),
        RuleType::Sequence(rs) => RuleTypeView::Sequence(rs@),
        RuleType::Token(t) => RuleTypeView::Token(t),
    }
}

/// The views of the ways for a rule to match.
pub open spec fn rule_types_view<R, T>(ts: Seq<RuleType<R, T>>) -> Seq<RuleTypeView<R, T>> {
    ts.map_values(|t: RuleType<R, T>| rule_type_view(t))
}

/// A rule of a grammar over tokens of one kind.
pub trait Rule: Copy + Sized {
    type Token: Token;

    /// The ways for the rule to match, in the order in which they are tried.
    spec fn spec_children(&self) -> Seq<RuleTypeView<Self, Self::Token>>;

    /// One of these children must match for the rule to match; the first that matches is
    /// taken.
    fn children(&self) -> (r: Vec<RuleType<Self, Self::Token>>)
        ensures
            rule_types_view(r@) == self.spec_children(),
    ;
}

} // verus!
