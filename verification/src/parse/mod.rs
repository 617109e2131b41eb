//! The basic logic for "compiling" a language: a `Lexer` turns text into tokens, then a
//! `Parser` turns the tokens into an AST, which an interpreter walks. A language supplies its
//! `Token` and `Rule` kinds.
pub mod interpreter;
pub mod lexer;
pub mod parser;
pub mod rule;
pub mod token;

pub use lexer::{Lexer, ParsedToken, ParsedTokenOffset, ParsedTokens};
pub use parser::{ASTNode, Parser, ParserResult};
pub use rule::{Rule, RuleType};
pub use token::Token;
