//! The tokens of JavaScript.
use vstd::prelude::*;

use crate::parse::Token;

verus! {

/// The kinds of token of the JavaScript that is read.
#[derive(Clone, Copy, Debug, PartialEq, Eq, Structural)]
pub enum JsToken {
    Document,
    IfKeyword,
    ElseKeyword,
    VarKeyword,
    FunctionKeyword,
    ThisKeyword,
    ReturnKeyword,
    ThrowKeyword,
    TrueKeyword,
    FalseKeyword,
    NullKeyword,
    NaNKeyword,
    VariableName,
    Number,
    String,
    Undefined,
    OperatorAdd,
    OperatorMultiply,
    OperatorEquals,
    OperatorEquality,
    OpenParen,
    CloseParen,
    OpenCurlyBrace,
    CloseCurlyBrace,
    Dot,
    Comma,
    Colon,
    Semicolon,
    QuestionMark,
    InlineComment,
    MultilineComment,
    Terminator,
}

/// The kinds listed as `STATEMENT_START`.
pub open spec fn spec_statement_start() -> Seq<JsToken> {
    seq![JsToken::IfKeyword, JsToken::VarKeyword, JsToken::FunctionKeyword, JsToken::ReturnKeyword, JsToken::ThrowKeyword, JsToken::Semicolon]
}

fn statement_start() -> (r: Vec<JsToken>)
    ensures
        r@ == spec_statement_start(),
{
    let r = vec![JsToken::IfKeyword, JsToken::VarKeyword, JsToken::FunctionKeyword, JsToken::ReturnKeyword, JsToken::ThrowKeyword, JsToken::Semicolon];
    assert(r@ =~= spec_statement_start());
    r
}

/// The kinds listed as `EXPRESSION_START`.
pub open spec fn spec_expression_start() -> Seq<JsToken> {
    seq![JsToken::TrueKeyword, JsToken::FalseKeyword, JsToken::NullKeyword, JsToken::Number, JsToken::String, JsToken::Undefined, JsToken::NaNKeyword, JsToken::OperatorAdd, JsToken::VariableName, JsToken::OpenCurlyBrace]
}

fn expression_start() -> (r: Vec<JsToken>)
    ensures
        r@ == spec_expression_start(),
{
    let r = vec![JsToken::TrueKeyword, JsToken::FalseKeyword, JsToken::NullKeyword, JsToken::Number, JsToken::String, JsToken::Undefined, JsToken::NaNKeyword, JsToken::OperatorAdd, JsToken::VariableName, JsToken::OpenCurlyBrace];
    assert(r@ =~= spec_expression_start());
    r
}

/// The kinds listed as `POST_EXPRESSION`.
pub open spec fn spec_post_expression() -> Seq<JsToken> {
    seq![JsToken::OperatorAdd, JsToken::OperatorMultiply, JsToken::OperatorEquality, JsToken::CloseParen, JsToken::CloseCurlyBrace, JsToken::Comma, JsToken::Semicolon, JsToken::ElseKeyword, JsToken::Colon, JsToken::QuestionMark, JsToken::Terminator]
}

fn post_expression() -> (r: Vec<JsToken>)
    ensures
        r@ == spec_post_expression(),
{
    let r = vec![JsToken::OperatorAdd, JsToken::OperatorMultiply, JsToken::OperatorEquality, JsToken::CloseParen, JsToken::CloseCurlyBrace, JsToken::Comma, JsToken::Semicolon, JsToken::ElseKeyword, JsToken::Colon, JsToken::QuestionMark, JsToken::Terminator];
    assert(r@ =~= spec_post_expression());
    r
}

impl Token for JsToken {
    open spec fn spec_regex(&self) -> Seq<char> {
        match *self {
            JsToken::Document => ""@,
            JsToken::IfKeyword => r"\s*(if)\s*"@,
            JsToken::ElseKeyword => r"\s*(else)\s*"@,
            JsToken::VarKeyword => r"\s*(var\s)\s*"@,
            JsToken::FunctionKeyword => r"\s*(function\s)\s*"@,
            JsToken::ThisKeyword => r"\s*(this)\s*"@,
            JsToken::ReturnKeyword => r"\s*(return\s)\s*"@,
            JsToken::ThrowKeyword => r"\s*(throw\s)\s*"@,
            JsToken::TrueKeyword => r"\s*(true)\s*"@,
            JsToken::FalseKeyword => r"\s*(false)\s*"@,
            JsToken::NullKeyword => r"\s*(null)\s*"@,
            JsToken::NaNKeyword => r"\s*(NaN)\s*"@,
            JsToken::VariableName => r"\s*((?!((var|function|throw|return|undefined|true|false|null|if|NaN)[^a-zA-Z_$]))[a-zA-Z_][\w\d]*)\s*"@,
            JsToken::Number => r"\s*(-?\d[\d_]*(\.\d[\d_]*)?)\s*"@,
            JsToken::String => r#"\s*(("[^"]*")|('[^']*'))\s*"#@,
            JsToken::Undefined => r"\s*(undefined)\s*"@,
            JsToken::OperatorAdd => r"\s*(\+)\s*"@,
            JsToken::OperatorMultiply => r"\s*(\*)\s*"@,
            JsToken::OperatorEquals => r"\s*(=)\s*"@,
            JsToken::OperatorEquality => r"\s*(!==|!=|===|==)\s*"@,
            JsToken::OpenParen => r"\s*(\()\s*"@,
            JsToken::CloseParen => r"\s*(\))\s*"@,
            JsToken::OpenCurlyBrace => r"\s*({)\s*"@,
            JsToken::CloseCurlyBrace => r"\s*(})\s*"@,
            JsToken::Dot => r"\s*(\.)\s*"@,
            JsToken::Comma => r"\s*(,)\s*"@,
            JsToken::Colon => r"\s*(:)\s*"@,
            JsToken::Semicolon => r"\s*(;)\s*"@,
            JsToken::QuestionMark => r"\s*(\?)\s*"@,
            JsToken::InlineComment => r"\s*(//.*)"@,
            JsToken::MultilineComment => r"\s*(/\*(.|\n)*?\*/)\s*"@,
            JsToken::Terminator => r"\s*$"@,
        }
    }

    open spec fn spec_next_tokens(&self) -> Seq<JsToken> {
        match *self {
            JsToken::Document => seq![JsToken::Terminator] + spec_expression_start() + spec_statement_start(),
            JsToken::IfKeyword => seq![JsToken::OpenParen],
            JsToken::ElseKeyword => seq![JsToken::OpenParen, JsToken::OperatorAdd, JsToken::Terminator] + spec_expression_start() + spec_statement_start(),
            JsToken::VarKeyword => seq![JsToken::VariableName],
            JsToken::FunctionKeyword => seq![JsToken::VariableName],
            JsToken::ThisKeyword => seq![JsToken::OperatorEquals, JsToken::OpenParen, JsToken::Dot] + spec_post_expression(),
            JsToken::ReturnKeyword => spec_expression_start(),
            JsToken::ThrowKeyword => spec_expression_start(),
            JsToken::TrueKeyword => spec_post_expression(),
            JsToken::FalseKeyword => spec_post_expression(),
            JsToken::NullKeyword => spec_post_expression(),
            JsToken::NaNKeyword => spec_post_expression(),
            JsToken::VariableName => seq![JsToken::OperatorEquals, JsToken::OpenParen, JsToken::Dot] + spec_post_expression(),
            JsToken::Number => spec_post_expression(),
            JsToken::String => seq![JsToken::Dot, JsToken::Colon] + spec_post_expression(),
            JsToken::Undefined => spec_post_expression(),
            JsToken::OperatorAdd => spec_expression_start(),
            JsToken::OperatorMultiply => spec_expression_start(),
            JsToken::OperatorEquals => spec_expression_start(),
            JsToken::OperatorEquality => spec_expression_start(),
            JsToken::OpenParen => seq![JsToken::CloseParen] + spec_expression_start(),
            JsToken::CloseParen => seq![JsToken::CloseParen, JsToken::OpenCurlyBrace, JsToken::OperatorMultiply, JsToken::OperatorAdd, JsToken::Comma, JsToken::Terminator] + spec_expression_start() + spec_statement_start(),
            JsToken::OpenCurlyBrace => seq![JsToken::CloseCurlyBrace] + spec_expression_start() + spec_statement_start(),
            JsToken::CloseCurlyBrace => spec_expression_start() + spec_statement_start() + spec_post_expression(),
            JsToken::Dot => seq![JsToken::VariableName],
            JsToken::Comma => seq![JsToken::CloseParen, JsToken::CloseCurlyBrace] + spec_expression_start(),
            JsToken::Colon => spec_expression_start(),
            JsToken::Semicolon => seq![JsToken::CloseCurlyBrace, JsToken::ElseKeyword, JsToken::Terminator] + spec_expression_start() + spec_statement_start(),
            JsToken::QuestionMark => spec_expression_start(),
            JsToken::InlineComment => seq![],
            JsToken::MultilineComment => seq![],
            JsToken::Terminator => seq![],
        }
    }

    open spec fn spec_is_terminator(&self) -> bool {
        *self == JsToken::Terminator
    }

    open spec fn spec_comment_tokens() -> Seq<JsToken> {
        seq![JsToken::InlineComment, JsToken::MultilineComment]
    }

    fn regex(&self) -> (r: &'static str) {
        match *self {
            JsToken::Document => "",
            JsToken::IfKeyword => r"\s*(if)\s*",
            JsToken::ElseKeyword => r"\s*(else)\s*",
            JsToken::VarKeyword => r"\s*(var\s)\s*",
            JsToken::FunctionKeyword => r"\s*(function\s)\s*",
            JsToken::ThisKeyword => r"\s*(this)\s*",
            JsToken::ReturnKeyword => r"\s*(return\s)\s*",
            JsToken::ThrowKeyword => r"\s*(throw\s)\s*",
            JsToken::TrueKeyword => r"\s*(true)\s*",
            JsToken::FalseKeyword => r"\s*(false)\s*",
            JsToken::NullKeyword => r"\s*(null)\s*",
            JsToken::NaNKeyword => r"\s*(NaN)\s*",
            JsToken::VariableName => r"\s*((?!((var|function|throw|return|undefined|true|false|null|if|NaN)[^a-zA-Z_$]))[a-zA-Z_][\w\d]*)\s*",
            JsToken::Number => r"\s*(-?\d[\d_]*(\.\d[\d_]*)?)\s*",
            JsToken::String => r#"\s*(("[^"]*")|('[^']*'))\s*"#,
            JsToken::Undefined => r"\s*(undefined)\s*",
            JsToken::OperatorAdd => r"\s*(\+)\s*",
            JsToken::OperatorMultiply => r"\s*(\*)\s*",
            JsToken::OperatorEquals => r"\s*(=)\s*",
            JsToken::OperatorEquality => r"\s*(!==|!=|===|==)\s*",
            JsToken::OpenParen => r"\s*(\()\s*",
            JsToken::CloseParen => r"\s*(\))\s*",
            JsToken::OpenCurlyBrace => r"\s*({)\s*",
            JsToken::CloseCurlyBrace => r"\s*(})\s*",
            JsToken::Dot => r"\s*(\.)\s*",
            JsToken::Comma => r"\s*(,)\s*",
            JsToken::Colon => r"\s*(:)\s*",
            JsToken::Semicolon => r"\s*(;)\s*",
            JsToken::QuestionMark => r"\s*(\?)\s*",
            JsToken::InlineComment => r"\s*(//.*)",
            JsToken::MultilineComment => r"\s*(/\*(.|\n)*?\*/)\s*",
            JsToken::Terminator => r"\s*$",
        }
    }

    fn next_tokens(&self) -> (r: Vec<JsToken>) {
        let r = match *self {
            JsToken::Document => {
                let mut v: Vec<JsToken> = vec![JsToken::Terminator];
                v.append(&mut expression_start());
                v.append(&mut statement_start());
                v
            },
            JsToken::IfKeyword => vec![JsToken::OpenParen],
            JsToken::ElseKeyword => {
                let mut v: Vec<JsToken> = vec![JsToken::OpenParen, JsToken::OperatorAdd, JsToken::Terminator];
                v.append(&mut expression_start());
                v.append(&mut statement_start());
                v
            },
            JsToken::VarKeyword => vec![JsToken::VariableName],
            JsToken::FunctionKeyword => vec![JsToken::VariableName],
            JsToken::ThisKeyword => {
                let mut v: Vec<JsToken> = vec![JsToken::OperatorEquals, JsToken::OpenParen, JsToken::Dot];
                v.append(&mut post_expression());
                v
            },
            JsToken::ReturnKeyword => expression_start(),
            JsToken::ThrowKeyword => expression_start(),
            JsToken::TrueKeyword => post_expression(),
            JsToken::FalseKeyword => post_expression(),
            JsToken::NullKeyword => post_expression(),
            JsToken::NaNKeyword => post_expression(),
            JsToken::VariableName => {
                let mut v: Vec<JsToken> = vec![JsToken::OperatorEquals, JsToken::OpenParen, JsToken::Dot];
                v.append(&mut post_expression());
                v
            },
            JsToken::Number => post_expression(),
            JsToken::String => {
                let mut v: Vec<JsToken> = vec![JsToken::Dot, JsToken::Colon];
                v.append(&mut post_expression());
                v
            },
            JsToken::Undefined => post_expression(),
            JsToken::OperatorAdd => expression_start(),
            JsToken::OperatorMultiply => expression_start(),
            JsToken::OperatorEquals => expression_start(),
            JsToken::OperatorEquality => expression_start(),
            JsToken::OpenParen => {
                let mut v: Vec<JsToken> = vec![JsToken::CloseParen];
                v.append(&mut expression_start());
                v
            },
            JsToken::CloseParen => {
                let mut v: Vec<JsToken> = vec![JsToken::CloseParen, JsToken::OpenCurlyBrace, JsToken::OperatorMultiply, JsToken::OperatorAdd, JsToken::Comma, JsToken::Terminator];
                v.append(&mut expression_start());
                v.append(&mut statement_start());
                v
            },
            JsToken::OpenCurlyBrace => {
                let mut v: Vec<JsToken> = vec![JsToken::CloseCurlyBrace];
                v.append(&mut expression_start());
                v.append(&mut statement_start());
                v
            },
            JsToken::CloseCurlyBrace => {
                let mut v: Vec<JsToken> = expression_start();
                v.append(&mut statement_start());
                v.append(&mut post_expression());
                v
            },
            JsToken::Dot => vec![JsToken::VariableName],
            JsToken::Comma => {
                let mut v: Vec<JsToken> = vec![JsToken::CloseParen, JsToken::CloseCurlyBrace];
                v.append(&mut expression_start());
                v
            },
            JsToken::Colon => expression_start(),
            JsToken::Semicolon => {
                let mut v: Vec<JsToken> = vec![JsToken::CloseCurlyBrace, JsToken::ElseKeyword, JsToken::Terminator];
                v.append(&mut expression_start());
                v.append(&mut statement_start());
                v
            },
            JsToken::QuestionMark => expression_start(),
            JsToken::InlineComment => vec![],
            JsToken::MultilineComment => vec![],
            JsToken::Terminator => vec![],
        };
        assert(r@ =~= self.spec_next_tokens());
        r
    }

    fn is_terminator(&self) -> (r: bool) {
        matches!(*self, JsToken::Terminator)
    }

    fn get_comment_tokens() -> (r: Vec<JsToken>) {
        let r = vec![JsToken::InlineComment, JsToken::MultilineComment];
        assert(r@ =~= Self::spec_comment_tokens());
        r
    }

    fn same_token(&self, other: &JsToken) -> (r: bool) {
        *self == *other
    }
}

} // verus!
