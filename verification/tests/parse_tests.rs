use wowser::js::{JsRule, JsToken};
use wowser::math_parse::{MathRule, MathToken};
use wowser::parse::{Lexer, Parser};

#[test]
fn js_tokens_are_read_in_order() {
    let lexer = Lexer::new(JsToken::Document);
    let tokens = lexer.parse("var a = 1; // note\na + 2;").expect("Failed to lex");
    let kinds: Vec<JsToken> = tokens.iter().map(|t| t.token).collect();
    assert_eq!(
        kinds,
        vec![
            JsToken::VarKeyword,
            JsToken::VariableName,
            JsToken::OperatorEquals,
            JsToken::Number,
            JsToken::Semicolon,
            JsToken::VariableName,
            JsToken::OperatorAdd,
            JsToken::Number,
            JsToken::Semicolon,
            JsToken::Terminator,
        ]
    );
    assert_eq!(tokens[1].literal, "a");
    assert_eq!(tokens[3].literal, "1");
    assert_eq!(tokens[0].offset, 0);
}

#[test]
fn js_text_that_no_token_reads_is_refused() {
    let lexer = Lexer::new(JsToken::Document);
    assert!(lexer.parse("1 1").is_none());
}

#[test]
fn js_statements_parse_into_a_document() {
    let lexer = Lexer::new(JsToken::Document);
    let tokens = lexer.parse("1 + 2;").expect("Failed to lex");
    let result = Parser {}.parse(&tokens, &JsRule::Document).expect("Failed to parse");
    assert_eq!(result.node.rule, JsRule::Document);
    assert!(result.remaining_tokens.is_empty());
    assert_eq!(result.node.children.len(), 2);
    assert_eq!(result.node.children[0].rule, JsRule::Statements);
    assert_eq!(result.node.children[1].rule, JsRule::Terminator);
    assert_eq!(result.node.rebuild_full_text(), "1 + 2;");
    assert_eq!(result.node.get_first_token().unwrap().literal, "1");
}

#[test]
fn parsing_no_tokens_fails() {
    let tokens = vec![];
    let parser = Parser {};
    match parser.parse::<JsRule>(&tokens, &JsRule::Document) {
        Err(e) => assert_eq!(e, "No tokens left"),
        Ok(_) => panic!("expected a failure"),
    }
}

#[test]
fn math_sums_lex_and_parse() {
    let lexer = Lexer::new(MathToken::Document);
    let tokens = lexer.parse("1; 2 + 3;").expect("Failed to lex");
    let kinds: Vec<MathToken> = tokens.iter().map(|t| t.token).collect();
    assert_eq!(
        kinds,
        vec![
            MathToken::Number,
            MathToken::Semicolon,
            MathToken::Number,
            MathToken::Plus,
            MathToken::Number,
            MathToken::Semicolon,
            MathToken::Terminator,
        ]
    );
    let result = Parser {}.parse(&tokens, &MathRule::Document).expect("Failed to parse");
    assert_eq!(result.node.rule, MathRule::Document);
    let body = &result.node.children[0];
    assert_eq!(body.rule, MathRule::DocumentBody);
    assert_eq!(body.children.len(), 2);
}

#[test]
fn unparsable_math_is_refused() {
    let lexer = Lexer::new(MathToken::Document);
    let tokens = lexer.parse("1;").expect("Failed to lex");
    let expression = Parser {}.parse(&tokens, &MathRule::Expression).expect("Failed to parse");
    assert_eq!(expression.remaining_tokens.len(), 2);
    let parser = Parser {};
    match parser.parse(&tokens, &MathRule::BinaryOperator) {
        Err(e) => assert_eq!(e, "Unable to match any child rules"),
        Ok(_) => panic!("expected a failure"),
    }
}
