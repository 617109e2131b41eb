//! Helpers for interpreters that walk an AST.
use vstd::prelude::*;

use super::parser::ASTNode;
use super::rule::Rule;
use vstd::string::StringExecFns;

verus! {

/// The children of a node of the expected rule.
pub fn extract_interpreter_children<'a, R: Rule>(node: &'a ASTNode<'a, R>, expected_rule: R) -> (res:
    &'a Vec<ASTNode<'a, R>>)
    requires
        node.rule == expected_rule,
    ensures
        *res == node.children,
{
    &node.children
}

/// The children of a node of the expected rule that has the expected number of them.
pub fn extract_interpreter_n_children<'a, R: Rule>(
    node: &'a ASTNode<'a, R>,
    expected_rule: R,
    expected_children_length: usize,
) -> (res: &'a Vec<ASTNode<'a, R>>)
    requires
        node.rule == expected_rule,
        node.children@.len() == expected_children_length,
    ensures
        *res == node.children,
{
    extract_interpreter_children(node, expected_rule)
}

/// The text of the token of a node of the expected rule.
pub fn extract_interpreter_token<'a, R: Rule>(node: &'a ASTNode<'a, R>, expected_rule: R) -> (res:
    String)
    requires
        node.rule == expected_rule,
        node.token is Some,
    ensures
        res@ == node.token.unwrap().literal@,
{
    let token = node.token.unwrap();
    String::from_str(token.literal)
}

} // verus!
