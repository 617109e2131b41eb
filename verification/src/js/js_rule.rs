//! The grammar of JavaScript.
use vstd::prelude::*;

use super::js_token::JsToken;
use crate::parse::rule::{rule_types_view, RuleTypeView};
use crate::parse::{Rule, RuleType};

verus! {

/// The rules of the JavaScript grammar.
#[derive(Clone, Copy, Debug, PartialEq, Eq, Hash, Structural)]
pub enum JsRule {
    Document,
    Statements,
    Statement,
    IfKeyword,
    IfStatement,
    ElseKeyword,
    ElseStatement,
    VarDeclaration,
    VarKeyword,
    ThisKeyword,
    FunctionDeclaration,
    FunctionKeyword,
    FunctionParams,
    ReturnKeyword,
    ThrowKeyword,
    ObjectLiteral,
    ObjectMembers,
    TrueKeyword,
    FalseKeyword,
    NullKeyword,
    RightHandSideVariable,
    VariableName,
    VariableAssignment,
    Expression,
    ExpressionAdd,
    ExpressionSubAdd,
    ExpressionMultiply,
    ExpressionSubMultiply,
    ExpressionEquality,
    ExpressionSubEquality,
    ExpressionFunctionInvoke,
    FunctionInvoke,
    FunctionArguments,
    ExpressionConditional,
    ExpressionSubConditional,
    OperatorAdd,
    OperatorMultiply,
    OperatorEquals,
    OperatorEquality,
    DotAccess,
    OpenParen,
    CloseParen,
    OpenCurlyBrace,
    CloseCurlyBrace,
    Dot,
    Comma,
    LiteralValue,
    Number,
    String,
    Undefined,
    NaNKeyword,
    Colon,
    Semicolon,
    QuestionMark,
    Terminator,
}

impl Rule for JsRule {
    type Token = JsToken;

    open spec fn spec_children(&self) -> Seq<RuleTypeView<JsRule, JsToken>> {
        match *self {
            JsRule::Document => seq![
                RuleTypeView::Sequence(seq![JsRule::Statements, JsRule::VarDeclaration, JsRule::Terminator]),
                RuleTypeView::Sequence(seq![JsRule::Statements, JsRule::Expression, JsRule::Terminator]),
                RuleTypeView::Sequence(seq![JsRule::Statements, JsRule::VariableAssignment, JsRule::Terminator]),
                RuleTypeView::Sequence(seq![JsRule::Statements, JsRule::Terminator]),
                RuleTypeView::Rule(JsRule::Terminator),
            ],
            JsRule::Statements => seq![
                RuleTypeView::RepeatableRule(JsRule::Statement),
            ],
            JsRule::Statement => seq![
                RuleTypeView::Rule(JsRule::FunctionDeclaration),
                RuleTypeView::Rule(JsRule::IfStatement),
                RuleTypeView::Sequence(seq![JsRule::ReturnKeyword, JsRule::Expression, JsRule::Semicolon]),
                RuleTypeView::Sequence(seq![JsRule::ThrowKeyword, JsRule::Expression, JsRule::Semicolon]),
                RuleTypeView::Sequence(seq![JsRule::VarDeclaration, JsRule::Semicolon]),
                RuleTypeView::Sequence(seq![JsRule::Expression, JsRule::Semicolon]),
                RuleTypeView::Sequence(seq![JsRule::VariableAssignment, JsRule::Semicolon]),
                RuleTypeView::Sequence(seq![JsRule::Semicolon]),
            ],
            JsRule::VarDeclaration => seq![
                RuleTypeView::Sequence(seq![JsRule::VarKeyword, JsRule::VariableName, JsRule::OperatorEquals, JsRule::Expression]),
                RuleTypeView::Sequence(seq![JsRule::VarKeyword, JsRule::VariableName]),
            ],
            JsRule::VarKeyword => seq![
                RuleTypeView::Token(JsToken::VarKeyword),
            ],
            JsRule::ThisKeyword => seq![
                RuleTypeView::Token(JsToken::ThisKeyword),
            ],
            JsRule::FunctionDeclaration => seq![
                RuleTypeView::Sequence(seq![JsRule::FunctionKeyword, JsRule::VariableName, JsRule::OpenParen, JsRule::FunctionParams, JsRule::CloseParen, JsRule::OpenCurlyBrace, JsRule::Statements, JsRule::CloseCurlyBrace ]),
            ],
            JsRule::FunctionKeyword => seq![
                RuleTypeView::Token(JsToken::FunctionKeyword),
            ],
            JsRule::FunctionParams => seq![
                RuleTypeView::Sequence(seq![JsRule::VariableName, JsRule::Comma, JsRule::FunctionParams]),
                RuleTypeView::Sequence(seq![JsRule::VariableName, JsRule::Comma]),
                RuleTypeView::Rule(JsRule::VariableName),
                RuleTypeView::Sequence(seq![]),
            ],
            JsRule::ReturnKeyword => seq![
                RuleTypeView::Token(JsToken::ReturnKeyword),
            ],
            JsRule::ThrowKeyword => seq![
                RuleTypeView::Token(JsToken::ThrowKeyword),
            ],
            JsRule::ObjectLiteral => seq![
                RuleTypeView::Sequence(seq![JsRule::OpenCurlyBrace, JsRule::ObjectMembers, JsRule::CloseCurlyBrace]),
            ],
            JsRule::ObjectMembers => seq![
                RuleTypeView::Sequence(seq![JsRule::String, JsRule::Colon, JsRule::Expression, JsRule::Comma, JsRule::ObjectMembers]),
                RuleTypeView::Sequence(seq![JsRule::String, JsRule::Colon, JsRule::Expression, JsRule::Comma]),
                RuleTypeView::Sequence(seq![JsRule::String, JsRule::Colon, JsRule::Expression]),
                RuleTypeView::Sequence(seq![]),
            ],
            JsRule::IfStatement => seq![
                RuleTypeView::Sequence(seq![JsRule::IfKeyword, JsRule::OpenParen, JsRule::Expression, JsRule::CloseParen, JsRule::OpenCurlyBrace, JsRule::Statements, JsRule::CloseCurlyBrace, JsRule::ElseStatement]),
                RuleTypeView::Sequence(seq![JsRule::IfKeyword, JsRule::OpenParen, JsRule::Expression, JsRule::CloseParen, JsRule::Statement, JsRule::ElseStatement]),
                RuleTypeView::Sequence(seq![JsRule::IfKeyword, JsRule::OpenParen, JsRule::Expression, JsRule::CloseParen, JsRule::Expression, JsRule::ElseStatement]),
            ],
            JsRule::ElseStatement => seq![
                RuleTypeView::Sequence(seq![JsRule::ElseKeyword, JsRule::OpenCurlyBrace, JsRule::Statements, JsRule::CloseCurlyBrace]),
                RuleTypeView::Sequence(seq![JsRule::ElseKeyword, JsRule::Statement ]),
                RuleTypeView::Sequence(seq![JsRule::ElseKeyword, JsRule::Expression]),
                RuleTypeView::Sequence(seq![]),
            ],
            JsRule::IfKeyword => seq![
                RuleTypeView::Token(JsToken::IfKeyword),
            ],
            JsRule::ElseKeyword => seq![
                RuleTypeView::Token(JsToken::ElseKeyword),
            ],
            JsRule::TrueKeyword => seq![
                RuleTypeView::Token(JsToken::TrueKeyword),
            ],
            JsRule::FalseKeyword => seq![
                RuleTypeView::Token(JsToken::FalseKeyword),
            ],
            JsRule::NullKeyword => seq![
                RuleTypeView::Token(JsToken::NullKeyword),
            ],
            JsRule::RightHandSideVariable => seq![
                RuleTypeView::Rule(JsRule::ThisKeyword),
                RuleTypeView::Rule(JsRule::VariableName),
            ],
            JsRule::VariableName => seq![
                RuleTypeView::Token(JsToken::VariableName),
            ],
            JsRule::VariableAssignment => seq![
                RuleTypeView::Sequence(seq![JsRule::VariableName, JsRule::OperatorEquals, JsRule::Expression]),
            ],
            JsRule::Expression => seq![
                RuleTypeView::Rule(JsRule::ExpressionConditional),
                RuleTypeView::Rule(JsRule::ExpressionEquality),
                RuleTypeView::Rule(JsRule::ExpressionAdd),
                RuleTypeView::Rule(JsRule::ExpressionMultiply),
                RuleTypeView::Rule(JsRule::ExpressionFunctionInvoke),
                RuleTypeView::Rule(JsRule::DotAccess),
                RuleTypeView::Rule(JsRule::RightHandSideVariable),
                RuleTypeView::Rule(JsRule::LiteralValue),
            ],
            JsRule::ExpressionConditional => seq![
                RuleTypeView::Sequence(seq![JsRule::ExpressionSubConditional, JsRule::QuestionMark, JsRule::Expression, JsRule::Colon, JsRule::ExpressionSubConditional]),
            ],
            JsRule::ExpressionSubConditional => seq![
                RuleTypeView::Rule(JsRule::ExpressionFunctionInvoke),
                RuleTypeView::Rule(JsRule::ExpressionEquality),
                RuleTypeView::Rule(JsRule::ExpressionAdd),
                RuleTypeView::Rule(JsRule::ExpressionMultiply),
                RuleTypeView::Rule(JsRule::RightHandSideVariable),
                RuleTypeView::Rule(JsRule::LiteralValue),
            ],
            JsRule::ExpressionEquality => seq![
                RuleTypeView::Sequence(seq![JsRule::ExpressionFunctionInvoke, JsRule::OperatorEquality, JsRule::ExpressionSubEquality]),
                RuleTypeView::Sequence(seq![JsRule::ExpressionAdd, JsRule::OperatorEquality, JsRule::ExpressionSubEquality]),
                RuleTypeView::Sequence(seq![JsRule::ExpressionMultiply, JsRule::OperatorEquality, JsRule::ExpressionSubEquality]),
                RuleTypeView::Sequence(seq![JsRule::RightHandSideVariable, JsRule::OperatorEquality, JsRule::ExpressionSubEquality]),
                RuleTypeView::Sequence(seq![JsRule::LiteralValue, JsRule::OperatorEquality, JsRule::ExpressionSubEquality]),
            ],
            JsRule::ExpressionSubEquality => seq![
                RuleTypeView::Rule(JsRule::ExpressionFunctionInvoke),
                RuleTypeView::Rule(JsRule::ExpressionEquality),
                RuleTypeView::Rule(JsRule::ExpressionAdd),
                RuleTypeView::Rule(JsRule::ExpressionMultiply),
                RuleTypeView::Rule(JsRule::RightHandSideVariable),
                RuleTypeView::Rule(JsRule::LiteralValue),
            ],
            JsRule::ExpressionAdd => seq![
                RuleTypeView::Sequence(seq![JsRule::ExpressionFunctionInvoke, JsRule::OperatorAdd, JsRule::ExpressionSubAdd]),
                RuleTypeView::Sequence(seq![JsRule::ExpressionMultiply, JsRule::OperatorAdd, JsRule::ExpressionSubAdd]),
                RuleTypeView::Sequence(seq![JsRule::RightHandSideVariable, JsRule::OperatorAdd, JsRule::ExpressionSubAdd]),
                RuleTypeView::Sequence(seq![JsRule::LiteralValue, JsRule::OperatorAdd, JsRule::ExpressionSubAdd]),
                RuleTypeView::Sequence(seq![JsRule::OperatorAdd, JsRule::LiteralValue]),
            ],
            JsRule::ExpressionSubAdd => seq![
                RuleTypeView::Rule(JsRule::ExpressionFunctionInvoke),
                RuleTypeView::Rule(JsRule::ExpressionAdd),
                RuleTypeView::Rule(JsRule::ExpressionMultiply),
                RuleTypeView::Rule(JsRule::RightHandSideVariable),
                RuleTypeView::Rule(JsRule::ExpressionAdd),
                RuleTypeView::Rule(JsRule::LiteralValue),
            ],
            JsRule::ExpressionMultiply => seq![
                RuleTypeView::Sequence(seq![JsRule::ExpressionFunctionInvoke, JsRule::OperatorMultiply, JsRule::ExpressionSubMultiply]),
                RuleTypeView::Sequence(seq![JsRule::RightHandSideVariable, JsRule::OperatorMultiply, JsRule::ExpressionSubMultiply]),
                RuleTypeView::Sequence(seq![JsRule::LiteralValue, JsRule::OperatorMultiply, JsRule::ExpressionSubMultiply]),
            ],
            JsRule::ExpressionSubMultiply => seq![
                RuleTypeView::Rule(JsRule::ExpressionFunctionInvoke),
                RuleTypeView::Rule(JsRule::ExpressionMultiply),
                RuleTypeView::Rule(JsRule::RightHandSideVariable),
                RuleTypeView::Rule(JsRule::LiteralValue),
            ],
            JsRule::ExpressionFunctionInvoke => seq![
                RuleTypeView::Sequence(seq![JsRule::DotAccess, JsRule::FunctionInvoke]),
                RuleTypeView::Sequence(seq![JsRule::RightHandSideVariable, JsRule::FunctionInvoke]),
                RuleTypeView::Sequence(seq![JsRule::LiteralValue, JsRule::FunctionInvoke]),
            ],
            JsRule::FunctionInvoke => seq![
                RuleTypeView::Sequence(seq![JsRule::OpenParen, JsRule::FunctionArguments, JsRule::CloseParen]),
            ],
            JsRule::FunctionArguments => seq![
                RuleTypeView::Sequence(seq![JsRule::Expression, JsRule::Comma, JsRule::FunctionArguments]),
                RuleTypeView::Sequence(seq![JsRule::Expression, JsRule::Comma]),
                RuleTypeView::Sequence(seq![JsRule::Expression]),
                RuleTypeView::Sequence(seq![]),
            ],
            JsRule::LiteralValue => seq![
                RuleTypeView::Rule(JsRule::TrueKeyword),
                RuleTypeView::Rule(JsRule::FalseKeyword),
                RuleTypeView::Rule(JsRule::Number),
                RuleTypeView::Rule(JsRule::String),
                RuleTypeView::Rule(JsRule::Undefined),
                RuleTypeView::Rule(JsRule::NullKeyword),
                RuleTypeView::Rule(JsRule::NaNKeyword),
                RuleTypeView::Rule(JsRule::ObjectLiteral),
            ],
            JsRule::OperatorAdd => seq![
                RuleTypeView::Token(JsToken::OperatorAdd),
            ],
            JsRule::OperatorMultiply => seq![
                RuleTypeView::Token(JsToken::OperatorMultiply),
            ],
            JsRule::OperatorEquals => seq![
                RuleTypeView::Token(JsToken::OperatorEquals),
            ],
            JsRule::OperatorEquality => seq![
                RuleTypeView::Token(JsToken::OperatorEquality),
            ],
            JsRule::DotAccess => seq![
                RuleTypeView::Sequence(seq![JsRule::RightHandSideVariable, JsRule::Dot, JsRule::DotAccess]),
                RuleTypeView::Sequence(seq![JsRule::RightHandSideVariable, JsRule::Dot, JsRule::VariableName]),
                RuleTypeView::Sequence(seq![JsRule::LiteralValue, JsRule::Dot, JsRule::DotAccess]),
                RuleTypeView::Sequence(seq![JsRule::LiteralValue, JsRule::Dot, JsRule::VariableName]),
            ],
            JsRule::OpenParen => seq![
                RuleTypeView::Token(JsToken::OpenParen),
            ],
            JsRule::CloseParen => seq![
                RuleTypeView::Token(JsToken::CloseParen),
            ],
            JsRule::OpenCurlyBrace => seq![
                RuleTypeView::Token(JsToken::OpenCurlyBrace),
            ],
            JsRule::CloseCurlyBrace => seq![
                RuleTypeView::Token(JsToken::CloseCurlyBrace),
            ],
            JsRule::Dot => seq![
                RuleTypeView::Token(JsToken::Dot),
            ],
            JsRule::Comma => seq![
                RuleTypeView::Token(JsToken::Comma),
            ],
            JsRule::Number => seq![
                RuleTypeView::Token(JsToken::Number),
            ],
            JsRule::String => seq![
                RuleTypeView::Token(JsToken::String),
            ],
            JsRule::Undefined => seq![
                RuleTypeView::Token(JsToken::Undefined),
            ],
            JsRule::NaNKeyword => seq![
                RuleTypeView::Token(JsToken::NaNKeyword),
            ],
            JsRule::Colon => seq![
                RuleTypeView::Token(JsToken::Colon),
            ],
            JsRule::Semicolon => seq![
                RuleTypeView::Token(JsToken::Semicolon),
            ],
            JsRule::QuestionMark => seq![
                RuleTypeView::Token(JsToken::QuestionMark),
            ],
            JsRule::Terminator => seq![
                RuleTypeView::Token(JsToken::Terminator),
            ],
        }
    }

    fn children(&self) -> (r: Vec<RuleType<JsRule, JsToken>>) {
        let r = match *self {
            JsRule::Document => vec![
                RuleType::Sequence(vec![JsRule::Statements, JsRule::VarDeclaration, JsRule::Terminator]),
                RuleType::Sequence(vec![JsRule::Statements, JsRule::Expression, JsRule::Terminator]),
                RuleType::Sequence(vec![JsRule::Statements, JsRule::VariableAssignment, JsRule::Terminator]),
                RuleType::Sequence(vec![JsRule::Statements, JsRule::Terminator]),
                RuleType::Rule(JsRule::Terminator),
            ],
            JsRule::Statements => vec![
                RuleType::RepeatableRule(JsRule::Statement),
            ],
            JsRule::Statement => vec![
                RuleType::Rule(JsRule::FunctionDeclaration),
                RuleType::Rule(JsRule::IfStatement),
                RuleType::Sequence(vec![JsRule::ReturnKeyword, JsRule::Expression, JsRule::Semicolon]),
                RuleType::Sequence(vec![JsRule::ThrowKeyword, JsRule::Expression, JsRule::Semicolon]),
                RuleType::Sequence(vec![JsRule::VarDeclaration, JsRule::Semicolon]),
                RuleType::Sequence(vec![JsRule::Expression, JsRule::Semicolon]),
                RuleType::Sequence(vec![JsRule::VariableAssignment, JsRule::Semicolon]),
                RuleType::Sequence(vec![JsRule::Semicolon]),
            ],
            JsRule::VarDeclaration => vec![
                RuleType::Sequence(vec![JsRule::VarKeyword, JsRule::VariableName, JsRule::OperatorEquals, JsRule::Expression]),
                RuleType::Sequence(vec![JsRule::VarKeyword, JsRule::VariableName]),
            ],
            JsRule::VarKeyword => vec![
                RuleType::Token(JsToken::VarKeyword),
            ],
            JsRule::ThisKeyword => vec![
                RuleType::Token(JsToken::ThisKeyword),
            ],
            JsRule::FunctionDeclaration => vec![
                RuleType::Sequence(vec![JsRule::FunctionKeyword, JsRule::VariableName, JsRule::OpenParen, JsRule::FunctionParams, JsRule::CloseParen, JsRule::OpenCurlyBrace, JsRule::Statements, JsRule::CloseCurlyBrace ]),
            ],
            JsRule::FunctionKeyword => vec![
                RuleType::Token(JsToken::FunctionKeyword),
            ],
            JsRule::FunctionParams => vec![
                RuleType::Sequence(vec![JsRule::VariableName, JsRule::Comma, JsRule::FunctionParams]),
                RuleType::Sequence(vec![JsRule::VariableName, JsRule::Comma]),
                RuleType::Rule(JsRule::VariableName),
                RuleType::Sequence(vec![]),
            ],
            JsRule::ReturnKeyword => vec![
                RuleType::Token(JsToken::ReturnKeyword),
            ],
            JsRule::ThrowKeyword => vec![
                RuleType::Token(JsToken::ThrowKeyword),
            ],
            JsRule::ObjectLiteral => vec![
                RuleType::Sequence(vec![JsRule::OpenCurlyBrace, JsRule::ObjectMembers, JsRule::CloseCurlyBrace]),
            ],
            JsRule::ObjectMembers => vec![
                RuleType::Sequence(vec![JsRule::String, JsRule::Colon, JsRule::Expression, JsRule::Comma, JsRule::ObjectMembers]),
                RuleType::Sequence(vec![JsRule::String, JsRule::Colon, JsRule::Expression, JsRule::Comma]),
                RuleType::Sequence(vec![JsRule::String, JsRule::Colon, JsRule::Expression]),
                RuleType::Sequence(vec![]),
            ],
            JsRule::IfStatement => vec![
                RuleType::Sequence(vec![JsRule::IfKeyword, JsRule::OpenParen, JsRule::Expression, JsRule::CloseParen, JsRule::OpenCurlyBrace, JsRule::Statements, JsRule::CloseCurlyBrace, JsRule::ElseStatement]),
                RuleType::Sequence(vec![JsRule::IfKeyword, JsRule::OpenParen, JsRule::Expression, JsRule::CloseParen, JsRule::Statement, JsRule::ElseStatement]),
                RuleType::Sequence(vec![JsRule::IfKeyword, JsRule::OpenParen, JsRule::Expression, JsRule::CloseParen, JsRule::Expression, JsRule::ElseStatement]),
            ],
            JsRule::ElseStatement => vec![
                RuleType::Sequence(vec![JsRule::ElseKeyword, JsRule::OpenCurlyBrace, JsRule::Statements, JsRule::CloseCurlyBrace]),
                RuleType::Sequence(vec![JsRule::ElseKeyword, JsRule::Statement ]),
                RuleType::Sequence(vec![JsRule::ElseKeyword, JsRule::Expression]),
                RuleType::Sequence(vec![]),
            ],
            JsRule::IfKeyword => vec![
                RuleType::Token(JsToken::IfKeyword),
            ],
            JsRule::ElseKeyword => vec![
                RuleType::Token(JsToken::ElseKeyword),
            ],
            JsRule::TrueKeyword => vec![
                RuleType::Token(JsToken::TrueKeyword),
            ],
            JsRule::FalseKeyword => vec![
                RuleType::Token(JsToken::FalseKeyword),
            ],
            JsRule::NullKeyword => vec![
                RuleType::Token(JsToken::NullKeyword),
            ],
            JsRule::RightHandSideVariable => vec![
                RuleType::Rule(JsRule::ThisKeyword),
                RuleType::Rule(JsRule::VariableName),
            ],
            JsRule::VariableName => vec![
                RuleType::Token(JsToken::VariableName),
            ],
            JsRule::VariableAssignment => vec![
                RuleType::Sequence(vec![JsRule::VariableName, JsRule::OperatorEquals, JsRule::Expression]),
            ],
            JsRule::Expression => vec![
                RuleType::Rule(JsRule::ExpressionConditional),
                RuleType::Rule(JsRule::ExpressionEquality),
                RuleType::Rule(JsRule::ExpressionAdd),
                RuleType::Rule(JsRule::ExpressionMultiply),
                RuleType::Rule(JsRule::ExpressionFunctionInvoke),
                RuleType::Rule(JsRule::DotAccess),
                RuleType::Rule(JsRule::RightHandSideVariable),
                RuleType::Rule(JsRule::LiteralValue),
            ],
            JsRule::ExpressionConditional => vec![
                RuleType::Sequence(vec![JsRule::ExpressionSubConditional, JsRule::QuestionMark, JsRule::Expression, JsRule::Colon, JsRule::ExpressionSubConditional]),
            ],
            JsRule::ExpressionSubConditional => vec![
                RuleType::Rule(JsRule::ExpressionFunctionInvoke),
                RuleType::Rule(JsRule::ExpressionEquality),
                RuleType::Rule(JsRule::ExpressionAdd),
                RuleType::Rule(JsRule::ExpressionMultiply),
                RuleType::Rule(JsRule::RightHandSideVariable),
                RuleType::Rule(JsRule::LiteralValue),
            ],
            JsRule::ExpressionEquality => vec![
                RuleType::Sequence(vec![JsRule::ExpressionFunctionInvoke, JsRule::OperatorEquality, JsRule::ExpressionSubEquality]),
                RuleType::Sequence(vec![JsRule::ExpressionAdd, JsRule::OperatorEquality, JsRule::ExpressionSubEquality]),
                RuleType::Sequence(vec![JsRule::ExpressionMultiply, JsRule::OperatorEquality, JsRule::ExpressionSubEquality]),
                RuleType::Sequence(vec![JsRule::RightHandSideVariable, JsRule::OperatorEquality, JsRule::ExpressionSubEquality]),
                RuleType::Sequence(vec![JsRule::LiteralValue, JsRule::OperatorEquality, JsRule::ExpressionSubEquality]),
            ],
            JsRule::ExpressionSubEquality => vec![
                RuleType::Rule(JsRule::ExpressionFunctionInvoke),
                RuleType::Rule(JsRule::ExpressionEquality),
                RuleType::Rule(JsRule::ExpressionAdd),
                RuleType::Rule(JsRule::ExpressionMultiply),
                RuleType::Rule(JsRule::RightHandSideVariable),
                RuleType::Rule(JsRule::LiteralValue),
            ],
            JsRule::ExpressionAdd => vec![
                RuleType::Sequence(vec![JsRule::ExpressionFunctionInvoke, JsRule::OperatorAdd, JsRule::ExpressionSubAdd]),
                RuleType::Sequence(vec![JsRule::ExpressionMultiply, JsRule::OperatorAdd, JsRule::ExpressionSubAdd]),
                RuleType::Sequence(vec![JsRule::RightHandSideVariable, JsRule::OperatorAdd, JsRule::ExpressionSubAdd]),
                RuleType::Sequence(vec![JsRule::LiteralValue, JsRule::OperatorAdd, JsRule::ExpressionSubAdd]),
                RuleType::Sequence(vec![JsRule::OperatorAdd, JsRule::LiteralValue]),
            ],
            JsRule::ExpressionSubAdd => vec![
                RuleType::Rule(JsRule::ExpressionFunctionInvoke),
                RuleType::Rule(JsRule::ExpressionAdd),
                RuleType::Rule(JsRule::ExpressionMultiply),
                RuleType::Rule(JsRule::RightHandSideVariable),
                RuleType::Rule(JsRule::ExpressionAdd),
                RuleType::Rule(JsRule::LiteralValue),
            ],
            JsRule::ExpressionMultiply => vec![
                RuleType::Sequence(vec![JsRule::ExpressionFunctionInvoke, JsRule::OperatorMultiply, JsRule::ExpressionSubMultiply]),
                RuleType::Sequence(vec![JsRule::RightHandSideVariable, JsRule::OperatorMultiply, JsRule::ExpressionSubMultiply]),
                RuleType::Sequence(vec![JsRule::LiteralValue, JsRule::OperatorMultiply, JsRule::ExpressionSubMultiply]),
            ],
            JsRule::ExpressionSubMultiply => vec![
                RuleType::Rule(JsRule::ExpressionFunctionInvoke),
                RuleType::Rule(JsRule::ExpressionMultiply),
                RuleType::Rule(JsRule::RightHandSideVariable),
                RuleType::Rule(JsRule::LiteralValue),
            ],
            JsRule::ExpressionFunctionInvoke => vec![
                RuleType::Sequence(vec![JsRule::DotAccess, JsRule::FunctionInvoke]),
                RuleType::Sequence(vec![JsRule::RightHandSideVariable, JsRule::FunctionInvoke]),
                RuleType::Sequence(vec![JsRule::LiteralValue, JsRule::FunctionInvoke]),
            ],
            JsRule::FunctionInvoke => vec![
                RuleType::Sequence(vec![JsRule::OpenParen, JsRule::FunctionArguments, JsRule::CloseParen]),
            ],
            JsRule::FunctionArguments => vec![
                RuleType::Sequence(vec![JsRule::Expression, JsRule::Comma, JsRule::FunctionArguments]),
                RuleType::Sequence(vec![JsRule::Expression, JsRule::Comma]),
                RuleType::Sequence(vec![JsRule::Expression]),
                RuleType::Sequence(vec![]),
            ],
            JsRule::LiteralValue => vec![
                RuleType::Rule(JsRule::TrueKeyword),
                RuleType::Rule(JsRule::FalseKeyword),
                RuleType::Rule(JsRule::Number),
                RuleType::Rule(JsRule::String),
                RuleType::Rule(JsRule::Undefined),
                RuleType::Rule(JsRule::NullKeyword),
                RuleType::Rule(JsRule::NaNKeyword),
                RuleType::Rule(JsRule::ObjectLiteral),
            ],
            JsRule::OperatorAdd => vec![
                RuleType::Token(JsToken::OperatorAdd),
            ],
            JsRule::OperatorMultiply => vec![
                RuleType::Token(JsToken::OperatorMultiply),
            ],
            JsRule::OperatorEquals => vec![
                RuleType::Token(JsToken::OperatorEquals),
            ],
            JsRule::OperatorEquality => vec![
                RuleType::Token(JsToken::OperatorEquality),
            ],
            JsRule::DotAccess => vec![
                RuleType::Sequence(vec![JsRule::RightHandSideVariable, JsRule::Dot, JsRule::DotAccess]),
                RuleType::Sequence(vec![JsRule::RightHandSideVariable, JsRule::Dot, JsRule::VariableName]),
                RuleType::Sequence(vec![JsRule::LiteralValue, JsRule::Dot, JsRule::DotAccess]),
                RuleType::Sequence(vec![JsRule::LiteralValue, JsRule::Dot, JsRule::VariableName]),
            ],
            JsRule::OpenParen => vec![
                RuleType::Token(JsToken::OpenParen),
            ],
            JsRule::CloseParen => vec![
                RuleType::Token(JsToken::CloseParen),
            ],
            JsRule::OpenCurlyBrace => vec![
                RuleType::Token(JsToken::OpenCurlyBrace),
            ],
            JsRule::CloseCurlyBrace => vec![
                RuleType::Token(JsToken::CloseCurlyBrace),
            ],
            JsRule::Dot => vec![
                RuleType::Token(JsToken::Dot),
            ],
            JsRule::Comma => vec![
                RuleType::Token(JsToken::Comma),
            ],
            JsRule::Number => vec![
                RuleType::Token(JsToken::Number),
            ],
            JsRule::String => vec![
                RuleType::Token(JsToken::String),
            ],
            JsRule::Undefined => vec![
                RuleType::Token(JsToken::Undefined),
            ],
            JsRule::NaNKeyword => vec![
                RuleType::Token(JsToken::NaNKeyword),
            ],
            JsRule::Colon => vec![
                RuleType::Token(JsToken::Colon),
            ],
            JsRule::Semicolon => vec![
                RuleType::Token(JsToken::Semicolon),
            ],
            JsRule::QuestionMark => vec![
                RuleType::Token(JsToken::QuestionMark),
            ],
            JsRule::Terminator => vec![
                RuleType::Token(JsToken::Terminator),
            ],
        };
        assert(rule_types_view(r@) =~~= self.spec_children());
        r
    }
}

} // verus!
