//! Turning tokens into an AST.
use vstd::prelude::*;

use super::lexer::{token_view, tokens_view, ParsedToken, ParsedTokenView};
use super::rule::{rule_type_view, rule_types_view, Rule, RuleType, RuleTypeView};
use super::token::Token;
use crate::outcome::Outcome;
use vstd::string::StringExecFns;

verus! {

/// Represents a node in an AST representation of a language
#[derive(Debug)]
pub struct ASTNode<'a, R: Rule> {
    pub rule: R,
    pub token: Option<&'a ParsedToken<'a, R::Token>>,
    pub children: Vec<ASTNode<'a, R>>,
}

/// A node of an AST, with its token by value and its children as a sequence.
pub struct NodeView<R, T> {
    pub rule: R,
    pub token: Option<ParsedTokenView<T>>,
    pub children: Seq<NodeView<R, T>>,
}

/// The view of a node.
pub open spec fn node_view<R: Rule>(n: ASTNode<R>) -> NodeView<R, R::Token>
    decreases n, 1int,
{
    NodeView {
        rule: n.rule,
        token: match n.token {
            Some(t) => Some(token_view(*t)),
            None => None,
        },
        children: nodes_view(n, n.children@.len() as int),
    }
}

/// The views of the first `k` children of a node.
pub open spec fn nodes_view<R: Rule>(n: ASTNode<R>, k: int) -> Seq<NodeView<R, R::Token>>
    decreases n, 0int, k,
{
    if k <= 0 || k > n.children@.len() {
        Seq::empty()
    } else {
        proof {
            assert(decreases_to!(n => n.children));
            assert(decreases_to!(n.children => n.children@));
            assert(decreases_to!(n.children@ => n.children@[k - 1]));
        }
        nodes_view(n, k - 1).push(node_view(n.children@[k - 1]))
    }
}

/// The first token of a node: its own, else the first that a child has.
pub open spec fn first_token<R, T>(n: NodeView<R, T>) -> Option<ParsedTokenView<T>>
    decreases n, 1int,
{
    match n.token {
        Some(t) => Some(t),
        None => first_token_of(n, 0),
    }
}

/// The first token that the children of a node from the `i`-th on have.
pub open spec fn first_token_of<R, T>(n: NodeView<R, T>, i: int) -> Option<ParsedTokenView<T>>
    decreases n, 0int, n.children.len() - i,
{
    if i < 0 || i >= n.children.len() {
        None
    } else {
        proof {
            assert(decreases_to!(n => n.children));
            assert(decreases_to!(n.children => n.children[i]));
        }
        match first_token(n.children[i]) {
            Some(t) => Some(t),
            None => first_token_of(n, i + 1),
        }
    }
}

/// The text of a node: the whole match of its token, then the texts of its children.
pub open spec fn full_text<R, T>(n: NodeView<R, T>) -> Seq<char>
    decreases n, 1int,
{
    let own = match n.token {
        Some(t) => t.full_match,
        None => Seq::empty(),
    };
    own + children_text(n, n.children.len() as int)
}

/// The texts of the first `k` children of a node.
pub open spec fn children_text<R, T>(n: NodeView<R, T>, k: int) -> Seq<char>
    decreases n, 0int, k,
{
    if k <= 0 || k > n.children.len() {
        Seq::empty()
    } else {
        proof {
            assert(decreases_to!(n => n.children));
            assert(decreases_to!(n.children => n.children[k - 1]));
        }
        children_text(n, k - 1) + full_text(n.children[k - 1])
    }
}

impl<'a, R: Rule> ASTNode<'a, R> {
    /// A very rough approximation of where the current node is located: its token, else the
    /// first token of its children.
    pub fn get_first_token(&self) -> (res: Option<&'a ParsedToken<'a, R::Token>>)
        ensures
            match res {
                Some(t) => first_token(node_view(*self)) == Some(token_view(*t)),
                None => first_token(node_view(*self)) is None,
            },
        decreases self,
    {
        if let Some(token) = self.token {
            return Some(token);
        }
        let n = self.children.len();
        let mut i: usize = 0;
        proof {
            lemma_nodes_view(*self, n as int);
        }
        while i < n
            invariant
                n == self.children@.len(),
                i <= n,
                self.token is None,
                node_view(*self).children.len() == n,
                first_token(node_view(*self)) == first_token_of(node_view(*self), i as int),
            decreases n - i,
        {
            proof {
                lemma_nodes_view(*self, n as int);
                assert(node_view(*self).children[i as int] == node_view(self.children@[i as int]));
            }
            let found = self.children[i].get_first_token();
            if let Some(t) = found {
                return Some(t);
            }
            i = i + 1;
        }
        None
    }

    /// The text that the node was read from: the whole matches of its tokens, in order.
    pub fn rebuild_full_text(&self) -> (ret: String)
        ensures
            ret@ == full_text(node_view(*self)),
        decreases self,
    {
        let ghost nv = node_view(*self);
        let mut ret = String::new();
        if let Some(token) = self.token {
            ret.append(token.full_match);
        }
        let n = self.children.len();
        let mut i: usize = 0;
        proof {
            lemma_nodes_view(*self, n as int);
            assert(ret@ =~= ret@ + children_text(nv, 0));
        }
        while i < n
            invariant
                n == self.children@.len(),
                i <= n,
                nv == node_view(*self),
                nv.children.len() == n,
                forall|k: int| 0 <= k < n ==> #[trigger] nv.children[k] == node_view(self.children@[k]),
                full_text(nv) == (match nv.token {
                    Some(t) => t.full_match,
                    None => Seq::empty(),
                }) + children_text(nv, n as int),
                ret@ == (match nv.token {
                    Some(t) => t.full_match,
                    None => Seq::empty(),
                }) + children_text(nv, i as int),
            decreases n - i,
        {
            let text = self.children[i].rebuild_full_text();
            let ghost before = ret@;
            ret.append(text.as_str());
            proof {
                assert(children_text(nv, i + 1) == children_text(nv, i as int) + full_text(nv.children[i as int]));
            }
            i = i + 1;
        }
        ret
    }
}

/// The views of the children of a node are the children's views.
pub proof fn lemma_nodes_view<R: Rule>(n: ASTNode<R>, k: int)
    requires
        0 <= k <= n.children@.len(),
    ensures
        nodes_view(n, k).len() == k,
        forall|i: int| 0 <= i < k ==> #[trigger] nodes_view(n, k)[i] == node_view(n.children@[i]),
    decreases k,
{
    if k > 0 {
        lemma_nodes_view(n, k - 1);
    }
}

/// The results of interpretting a rule over tokens
#[derive(Debug)]
pub struct ParserResult<'a, R: Rule> {
    pub node: ASTNode<'a, R>,
    pub remaining_tokens: &'a [ParsedToken<'a, R::Token>],
}

/// What parsing gives: a node and the position of the first token it did not take.
pub type ParseOutcome<R, T> = Outcome<(NodeView<R, T>, int)>;

/// Matching `rule` at token `start`, with at most `fuel` rules deep: no tokens left is a
/// failure; otherwise the first of the rule's children that matches is taken. Running out of
/// fuel stands for a parse that never ends.
pub open spec fn parse_rule<R: Rule>(
    toks: Seq<ParsedTokenView<R::Token>>,
    start: int,
    rule: R,
    fuel: nat,
) -> ParseOutcome<R, R::Token>
    decreases fuel, 3int, 0int,
{
    if start < 0 || start >= toks.len() {
        Outcome::Error
    } else {
        parse_alts(toks, start, rule, rule.spec_children(), 0, fuel)
    }
}

/// Trying the children `alts` of a rule from the `i`-th on.
pub open spec fn parse_alts<R: Rule>(
    toks: Seq<ParsedTokenView<R::Token>>,
    start: int,
    rule: R,
    alts: Seq<RuleTypeView<R, R::Token>>,
    i: int,
    fuel: nat,
) -> ParseOutcome<R, R::Token>
    decreases fuel, 2int, alts.len() - i,
{
    if i < 0 || i >= alts.len() {
        Outcome::Error
    } else {
        match parse_alt(toks, start, rule, alts[i], fuel) {
            Outcome::Value(v) => Outcome::Value(v),
            Outcome::Error => parse_alts(toks, start, rule, alts, i + 1, fuel),
            Outcome::Crash => Outcome::Crash,
        }
    }
}

/// A node of `rule` over the given children.
pub open spec fn inner_node<R, T>(rule: R, children: Seq<NodeView<R, T>>) -> NodeView<R, T> {
    NodeView { rule, token: None, children }
}

/// Matching one child of `rule` at token `start`: a token kind takes the token if it is of
/// that kind; a rule takes its node as the only child; a repeatable rule takes as many of
/// its nodes as match one after the other; a sequence takes a node of each of its rules in
/// turn.
pub open spec fn parse_alt<R: Rule>(
    toks: Seq<ParsedTokenView<R::Token>>,
    start: int,
    rule: R,
    alt: RuleTypeView<R, R::Token>,
    fuel: nat,
) -> ParseOutcome<R, R::Token>
    decreases fuel, 1int, 0int,
{
    match alt {
        RuleTypeView::Token(t) => if 0 <= start < toks.len() && toks[start].token == t {
            Outcome::Value(
                (NodeView { rule, token: Some(toks[start]), children: Seq::empty() }, start + 1),
            )
        } else {
            Outcome::Error
        },
        RuleTypeView::Rule(r) => if fuel == 0 {
            Outcome::Crash
        } else {
            match parse_rule(toks, start, r, (fuel - 1) as nat) {
                Outcome::Value((n, end)) => Outcome::Value((inner_node(rule, seq![n]), end)),
                Outcome::Error => Outcome::Error,
                Outcome::Crash => Outcome::Crash,
            }
        },
        RuleTypeView::RepeatableRule(r) => match repeat_rule(toks, start, r, fuel) {
            Outcome::Value((ns, end)) => Outcome::Value((inner_node(rule, ns), end)),
            Outcome::Error => Outcome::Error,
            Outcome::Crash => Outcome::Crash,
        },
        RuleTypeView::Sequence(rs) => match sequence_rules(toks, start, rs, 0, fuel) {
            Outcome::Value((ns, end)) => Outcome::Value((inner_node(rule, ns), end)),
            Outcome::Error => Outcome::Error,
            Outcome::Crash => Outcome::Crash,
        },
    }
}

/// Nodes in front of the nodes of an outcome.
pub open spec fn prepend_nodes<R, T>(
    acc: Seq<NodeView<R, T>>,
    o: Outcome<(Seq<NodeView<R, T>>, int)>,
) -> Outcome<(Seq<NodeView<R, T>>, int)> {
    match o {
        Outcome::Value((ns, end)) => Outcome::Value((acc + ns, end)),
        Outcome::Error => Outcome::Error,
        Outcome::Crash => Outcome::Crash,
    }
}

/// Matching `r` again and again from token `pos` while it matches.
pub open spec fn repeat_rule<R: Rule>(
    toks: Seq<ParsedTokenView<R::Token>>,
    pos: int,
    r: R,
    fuel: nat,
) -> Outcome<(Seq<NodeView<R, R::Token>>, int)>
    decreases fuel, 0int, 0int,
{
    if fuel == 0 {
        Outcome::Crash
    } else {
        match parse_rule(toks, pos, r, (fuel - 1) as nat) {
            Outcome::Value((n, end)) => prepend_nodes(
                seq![n],
                repeat_rule(toks, end, r, (fuel - 1) as nat),
            ),
            Outcome::Error => Outcome::Value((Seq::empty(), pos)),
            Outcome::Crash => Outcome::Crash,
        }
    }
}

/// Matching the rules `rs` from the `i`-th on, one after the other, from token `pos`.
pub open spec fn sequence_rules<R: Rule>(
    toks: Seq<ParsedTokenView<R::Token>>,
    pos: int,
    rs: Seq<R>,
    i: int,
    fuel: nat,
) -> Outcome<(Seq<NodeView<R, R::Token>>, int)>
    decreases fuel, 0int, rs.len() - i,
{
    if i < 0 || i >= rs.len() {
        Outcome::Value((Seq::empty(), pos))
    } else if fuel == 0 {
        Outcome::Crash
    } else {
        match parse_rule(toks, pos, rs[i], (fuel - 1) as nat) {
            Outcome::Value((n, end)) => prepend_nodes(
                seq![n],
                sequence_rules(toks, end, rs, i + 1, fuel),
            ),
            Outcome::Error => Outcome::Error,
            Outcome::Crash => Outcome::Crash,
        }
    }
}

/// The deepest nesting of rules that parsing tries.
pub const PARSE_FUEL: u64 = 0xffff_ffff_ffff_ffff;

/// The message of a failed parse: with no tokens, "No tokens left"; otherwise no child of
/// the rule matched.
pub open spec fn parse_error_message(n_tokens: int) -> Seq<char> {
    if n_tokens == 0 {
        "No tokens left"@
    } else {
        "Unable to match any child rules"@
    }
}

/// Parses tokens into an AST representation
pub struct Parser {}

impl Parser {
    /// Parses the tokens with `rule` at the root. A rule matches through the first of its
    /// children that matches, so the longest, most complex children should come first.
    pub fn parse<'a, R: Rule>(&self, tokens: &'a [ParsedToken<'a, R::Token>], rule: &R) -> (res:
        Result<ParserResult<'a, R>, &'static str>)
        requires
            !(parse_rule(tokens_view(tokens@), 0, *rule, PARSE_FUEL as nat) is Crash),
        ensures
            match parse_rule(tokens_view(tokens@), 0, *rule, PARSE_FUEL as nat) {
                Outcome::Value((n, end)) => res matches Ok(pr) && node_view(pr.node) == n
                    && tokens_view(pr.remaining_tokens@) == tokens_view(tokens@).skip(end),
                _ => res matches Err(e) && e@ == parse_error_message(tokens@.len() as int),
            },
    {
        match Self::parse_checked(tokens, rule) {
            Some(r) => r,
            None => Err("Unable to match any child rules"),
        }
    }

    /// Parses the tokens as `parse` does; `None` stands for the inputs on which parsing
    /// never ends.
    pub fn parse_checked<'a, R: Rule>(tokens: &'a [ParsedToken<'a, R::Token>], rule: &R) -> (res:
        Option<Result<ParserResult<'a, R>, &'static str>>)
        ensures
            match parse_rule(tokens_view(tokens@), 0, *rule, PARSE_FUEL as nat) {
                Outcome::Value((n, end)) => res matches Some(Ok(pr)) && node_view(pr.node) == n
                    && tokens_view(pr.remaining_tokens@) == tokens_view(tokens@).skip(end),
                Outcome::Error => res matches Some(Err(e)) && e@ == parse_error_message(
                    tokens@.len() as int,
                ),
                Outcome::Crash => res is None,
            },
    {
        match Self::parse_rule_exec(tokens, 0, rule, PARSE_FUEL) {
            None => None,
            Some(Ok((node, end))) => {
                let remaining_tokens = &tokens[end..tokens.len()];
                assert(tokens_view(remaining_tokens@) =~= tokens_view(tokens@).skip(end as int));
                Some(Ok(ParserResult { node, remaining_tokens }))
            },
            Some(Err(())) => {
                if tokens.len() == 0 {
                    Some(Err("No tokens left"))
                } else {
                    Some(Err("Unable to match any child rules"))
                }
            },
        }
    }

    fn parse_rule_exec<'a, R: Rule>(
        tokens: &'a [ParsedToken<'a, R::Token>],
        start: usize,
        rule: &R,
        fuel: u64,
    ) -> (res: Option<Result<(ASTNode<'a, R>, usize), ()>>)
        ensures
            match parse_rule(tokens_view(tokens@), start as int, *rule, fuel as nat) {
                Outcome::Value((n, end)) => res matches Some(Ok((node, e))) && node_view(node) == n
                    && e == end,
                Outcome::Error => res matches Some(Err(())),
                Outcome::Crash => res is None,
            },
            res matches Some(Ok((_, e))) ==> e <= tokens@.len(),
        decreases fuel, 3int, 0int,
    {
        if start >= tokens.len() {
            return Some(Err(()));
        }
        let children = rule.children();
        let ghost alts = rule_types_view(children@);
        let n = children.len();
        let mut i: usize = 0;
        while i < n
            invariant
                n == children@.len(),
                alts == rule_types_view(children@),
                alts == rule.spec_children(),
                start < tokens@.len(),
                i <= n,
                parse_rule(tokens_view(tokens@), start as int, *rule, fuel as nat) == parse_alts(
                    tokens_view(tokens@),
                    start as int,
                    *rule,
                    alts,
                    i as int,
                    fuel as nat,
                ),
            decreases n - i,
        {
            assert(alts[i as int] == rule_type_view(children@[i as int]));
            match Self::parse_alt_exec(tokens, start, rule, &children[i], fuel) {
                None => return None,
                Some(Ok(r)) => return Some(Ok(r)),
                Some(Err(())) => {},
            }
            i = i + 1;
        }
        Some(Err(()))
    }

    fn parse_alt_exec<'a, R: Rule>(
        tokens: &'a [ParsedToken<'a, R::Token>],
        start: usize,
        rule: &R,
        alt: &RuleType<R, R::Token>,
        fuel: u64,
    ) -> (res: Option<Result<(ASTNode<'a, R>, usize), ()>>)
        requires
            start < tokens@.len(),
        ensures
            match parse_alt(tokens_view(tokens@), start as int, *rule, rule_type_view(*alt), fuel as nat) {
                Outcome::Value((n, end)) => res matches Some(Ok((node, e))) && node_view(node) == n
                    && e == end,
                Outcome::Error => res matches Some(Err(())),
                Outcome::Crash => res is None,
            },
            res matches Some(Ok((_, e))) ==> e <= tokens@.len(),
        decreases fuel, 1int, 0int,
    {
        let ghost toks = tokens_view(tokens@);
        match alt {
            RuleType::Token(token) => {
                let first_token = &tokens[start];
                if token.same_token(&first_token.token) {
                    let node = ASTNode { rule: *rule, token: Some(first_token), children: Vec::new() };
                    proof {
                        assert(toks[start as int] == token_view(*first_token));
                        assert(node_view(node).children =~= Seq::<NodeView<R, R::Token>>::empty());
                    }
                    Some(Ok((node, start + 1)))
                } else {
                    Some(Err(()))
                }
            },
            RuleType::Rule(r) => {
                if fuel == 0 {
                    return None;
                }
                match Self::parse_rule_exec(tokens, start, r, fuel - 1) {
                    None => None,
                    Some(Err(())) => Some(Err(())),
                    Some(Ok((child, end))) => {
                        let ghost cv = node_view(child);
                        let mut children: Vec<ASTNode<'a, R>> = Vec::new();
                        children.push(child);
                        let node = ASTNode { rule: *rule, token: None, children };
                        proof {
                            lemma_nodes_view(node, 1);
                            assert(node_view(node).children =~= seq![cv]);
                        }
                        Some(Ok((node, end)))
                    },
                }
            },
            RuleType::RepeatableRule(r) => {
                match Self::repeat_exec(tokens, start, r, fuel) {
                    None => None,
                    Some(Err(())) => Some(Err(())),
                    Some(Ok((children, end))) => {
                        let node = ASTNode { rule: *rule, token: None, children };
                        proof {
                            lemma_nodes_view(node, node.children@.len() as int);
                            assert(node_view(node).children =~= children_views(node.children@));
                        }
                        Some(Ok((node, end)))
                    },
                }
            },
            RuleType::Sequence(rs) => {
                match Self::sequence_exec(tokens, start, rs, fuel) {
                    None => None,
                    Some(Err(())) => Some(Err(())),
                    Some(Ok((children, end))) => {
                        let node = ASTNode { rule: *rule, token: None, children };
                        proof {
                            lemma_nodes_view(node, node.children@.len() as int);
                            assert(node_view(node).children =~= children_views(node.children@));
                        }
                        Some(Ok((node, end)))
                    },
                }
            },
        }
    }

    fn repeat_exec<'a, R: Rule>(
        tokens: &'a [ParsedToken<'a, R::Token>],
        start: usize,
        r: &R,
        fuel: u64,
    ) -> (res: Option<Result<(Vec<ASTNode<'a, R>>, usize), ()>>)
        requires
            start <= tokens@.len(),
        ensures
            res matches Some(Ok((_, e))) ==> e <= tokens@.len(),
            match repeat_rule(tokens_view(tokens@), start as int, *r, fuel as nat) {
                Outcome::Value((ns, end)) => res matches Some(Ok((nodes, e))) && children_views(
                    nodes@,
                ) == ns && e == end,
                Outcome::Error => res matches Some(Err(())),
                Outcome::Crash => res is None,
            },
        decreases fuel, 0int, 0int,
    {
        let ghost toks = tokens_view(tokens@);
        let mut children: Vec<ASTNode<'a, R>> = Vec::new();
        let mut pos = start;
        let mut cur_fuel = fuel;
        assert(children_views(children@) =~= Seq::<NodeView<R, R::Token>>::empty());
        loop
            invariant
                cur_fuel <= fuel,
                pos <= tokens@.len(),
                repeat_rule(toks, start as int, *r, fuel as nat) == prepend_nodes(
                    children_views(children@),
                    repeat_rule(toks, pos as int, *r, cur_fuel as nat),
                ),
                toks == tokens_view(tokens@),
            decreases cur_fuel,
        {
            if cur_fuel == 0 {
                return None;
            }
            match Self::parse_rule_exec(tokens, pos, r, cur_fuel - 1) {
                None => return None,
                Some(Err(())) => {
                    assert(children_views(children@) =~= children_views(children@) + Seq::<
                        NodeView<R, R::Token>,
                    >::empty());
                    return Some(Ok((children, pos)));
                },
                Some(Ok((child, end))) => {
                    let ghost before = children_views(children@);
                    let ghost cv = node_view(child);
                    children.push(child);
                    proof {
                        assert(children_views(children@) =~= before + seq![cv]);
                        let rest = repeat_rule(toks, end as int, *r, (cur_fuel - 1) as nat);
                        match rest {
                            Outcome::Value((ns, e)) => {
                                assert(before + (seq![cv] + ns) =~= (before + seq![cv]) + ns);
                            },
                            _ => {},
                        }
                    }
                    pos = end;
                    cur_fuel = cur_fuel - 1;
                },
            }
        }
    }

    fn sequence_exec<'a, R: Rule>(
        tokens: &'a [ParsedToken<'a, R::Token>],
        start: usize,
        rs: &Vec<R>,
        fuel: u64,
    ) -> (res: Option<Result<(Vec<ASTNode<'a, R>>, usize), ()>>)
        requires
            start <= tokens@.len(),
        ensures
            res matches Some(Ok((_, e))) ==> e <= tokens@.len(),
            match sequence_rules(tokens_view(tokens@), start as int, rs@, 0, fuel as nat) {
                Outcome::Value((ns, end)) => res matches Some(Ok((nodes, e))) && children_views(
                    nodes@,
                ) == ns && e == end,
                Outcome::Error => res matches Some(Err(())),
                Outcome::Crash => res is None,
            },
        decreases fuel, 0int, 0int,
    {
        let ghost toks = tokens_view(tokens@);
        let mut children: Vec<ASTNode<'a, R>> = Vec::new();
        let mut pos = start;
        let n = rs.len();
        let mut i: usize = 0;
        assert(children_views(children@) =~= Seq::<NodeView<R, R::Token>>::empty());
        while i < n
            invariant
                n == rs@.len(),
                i <= n,
                pos <= tokens@.len(),
                sequence_rules(toks, start as int, rs@, 0, fuel as nat) == prepend_nodes(
                    children_views(children@),
                    sequence_rules(toks, pos as int, rs@, i as int, fuel as nat),
                ),
                toks == tokens_view(tokens@),
            decreases n - i,
        {
            if fuel == 0 {
                return None;
            }
            match Self::parse_rule_exec(tokens, pos, &rs[i], fuel - 1) {
                None => return None,
                Some(Err(())) => return Some(Err(())),
                Some(Ok((child, end))) => {
                    let ghost before = children_views(children@);
                    let ghost cv = node_view(child);
                    children.push(child);
                    proof {
                        assert(children_views(children@) =~= before + seq![cv]);
                        let rest = sequence_rules(toks, end as int, rs@, i + 1, fuel as nat);
                        match rest {
                            Outcome::Value((ns, e)) => {
                                assert(before + (seq![cv] + ns) =~= (before + seq![cv]) + ns);
                            },
                            _ => {},
                        }
                    }
                    pos = end;
                },
            }
            i = i + 1;
        }
        assert(children_views(children@) =~= children_views(children@) + Seq::<
            NodeView<R, R::Token>,
        >::empty());
        Some(Ok((children, pos)))
    }
}

/// The views of a list of nodes.
pub open spec fn children_views<R: Rule>(ns: Seq<ASTNode<R>>) -> Seq<NodeView<R, R::Token>> {
    ns.map_values(|n: ASTNode<R>| node_view(n))
}

} // verus!
