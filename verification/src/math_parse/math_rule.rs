//! The grammar of sums of numbers.
use vstd::prelude::*;

use super::math_token::MathToken;
use crate::parse::rule::{rule_types_view, RuleTypeView};
use crate::parse::{Rule, RuleType};

verus! {

/// The rules of a text of sums: statements of a number or a sum, each ended by a semicolon.
#[derive(Clone, Copy, Debug, PartialEq, Eq, Hash, Structural)]
pub enum MathRule {
    Document,
    DocumentBody,
    Statement,
    Expression,
    BinaryExpression,
    BinaryOperator,
    Semicolon,
    Number,
    Terminator,
}

impl Rule for MathRule {
    type Token = MathToken;

    open spec fn spec_children(&self) -> Seq<RuleTypeView<MathRule, MathToken>> {
        match *self {
            MathRule::Document => seq![
                RuleTypeView::Sequence(seq![MathRule::DocumentBody, MathRule::Terminator]),
            ],
            MathRule::DocumentBody => seq![RuleTypeView::RepeatableRule(MathRule::Statement)],
            MathRule::Statement => seq![
                RuleTypeView::Sequence(seq![MathRule::Expression, MathRule::Semicolon]),
            ],
            MathRule::Expression => seq![
                RuleTypeView::Rule(MathRule::BinaryExpression),
                RuleTypeView::Rule(MathRule::Number),
            ],
            MathRule::BinaryExpression => seq![
                RuleTypeView::Sequence(
                    seq![MathRule::Number, MathRule::BinaryOperator, MathRule::Expression],
                ),
            ],
            MathRule::BinaryOperator => seq![RuleTypeView::Token(MathToken::Plus)],
            MathRule::Semicolon => seq![RuleTypeView::Token(MathToken::Semicolon)],
            MathRule::Number => seq![RuleTypeView::Token(MathToken::Number)],
            MathRule::Terminator => seq![RuleTypeView::Token(MathToken::Terminator)],
        }
    }

    fn children(&self) -> (r: Vec<RuleType<MathRule, MathToken>>) {
        let r = match *self {
            MathRule::Document => vec![
                RuleType::Sequence(vec![MathRule::DocumentBody, MathRule::Terminator]),
            ],
            MathRule::DocumentBody => vec![RuleType::RepeatableRule(MathRule::Statement)],
            MathRule::Statement => vec![
                RuleType::Sequence(vec![MathRule::Expression, MathRule::Semicolon]),
            ],
            MathRule::Expression => vec![
                RuleType::Rule(MathRule::BinaryExpression),
                RuleType::Rule(MathRule::Number),
            ],
            MathRule::BinaryExpression => vec![
                RuleType::Sequence(
                    vec![MathRule::Number, MathRule::BinaryOperator, MathRule::Expression],
                ),
            ],
            MathRule::BinaryOperator => vec![RuleType::Token(MathToken::Plus)],
            MathRule::Semicolon => vec![RuleType::Token(MathToken::Semicolon)],
            MathRule::Number => vec![RuleType::Token(MathToken::Number)],
            MathRule::Terminator => vec![RuleType::Token(MathToken::Terminator)],
        };
        assert(rule_types_view(r@) =~~= self.spec_children());
        r
    }
}

} // verus!
