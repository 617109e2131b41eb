//! The tokens of sums of numbers.
use vstd::prelude::*;

use crate::parse::Token;

verus! {

/// The kinds of token of a text of sums, one per statement.
#[derive(Clone, Copy, Debug, PartialEq, Eq, Structural)]
pub enum MathToken {
    Document,
    Number,
    Plus,
    Whitespace,
    Semicolon,
    Terminator,
}

impl Token for MathToken {
    open spec fn spec_regex(&self) -> Seq<char> {
        match *self {
            MathToken::Document => ""@,
            MathToken::Number => r"\s*(-?\d+(\.\d+)?)"@,
            MathToken::Plus => r"\s*(\+)"@,
            MathToken::Whitespace => r"\s+"@,
            MathToken::Semicolon => r"\s*;\s*"@,
            MathToken::Terminator => r"^$"@,
        }
    }

    open spec fn spec_next_tokens(&self) -> Seq<MathToken> {
        match *self {
            MathToken::Document => seq![MathToken::Whitespace, MathToken::Number, MathToken::Terminator],
            MathToken::Number => seq![MathToken::Plus, MathToken::Semicolon, MathToken::Whitespace],
            MathToken::Plus => seq![MathToken::Number],
            MathToken::Whitespace => seq![MathToken::Whitespace, MathToken::Terminator],
            MathToken::Semicolon => seq![
                MathToken::Number,
                MathToken::Whitespace,
                MathToken::Semicolon,
                MathToken::Terminator,
            ],
            MathToken::Terminator => seq![],
        }
    }

    open spec fn spec_is_terminator(&self) -> bool {
        *self == MathToken::Terminator
    }

    open spec fn spec_comment_tokens() -> Seq<MathToken> {
        seq![]
    }

    fn regex(&self) -> (r: &'static str) {
        match *self {
            MathToken::Document => "",
            MathToken::Number => r"\s*(-?\d+(\.\d+)?)",
            MathToken::Plus => r"\s*(\+)",
            MathToken::Whitespace => r"\s+",
            MathToken::Semicolon => r"\s*;\s*",
            MathToken::Terminator => r"^$",
        }
    }

    fn next_tokens(&self) -> (r: Vec<MathToken>) {
        let r = match *self {
            MathToken::Document => vec![MathToken::Whitespace, MathToken::Number, MathToken::Terminator],
            MathToken::Number => vec![MathToken::Plus, MathToken::Semicolon, MathToken::Whitespace],
            MathToken::Plus => vec![MathToken::Number],
            MathToken::Whitespace => vec![MathToken::Whitespace, MathToken::Terminator],
            MathToken::Semicolon => vec![
                MathToken::Number,
                MathToken::Whitespace,
                MathToken::Semicolon,
                MathToken::Terminator,
            ],
            MathToken::Terminator => vec![],
        };
        assert(r@ =~= self.spec_next_tokens());
        r
    }

    fn is_terminator(&self) -> (r: bool) {
        matches!(*self, MathToken::Terminator)
    }

    fn get_comment_tokens() -> (r: Vec<MathToken>) {
        let r: Vec<MathToken> = Vec::new();
        assert(r@ =~= Self::spec_comment_tokens());
        r
    }

    fn same_token(&self, other: &MathToken) -> (r: bool) {
        *self == *other
    }
}

} // verus!
