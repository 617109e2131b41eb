//! Turning text into tokens.
use vstd::prelude::*;

use super::token::Token;
use crate::outcome::Outcome;
use vstd::string::StringSliceAdditionalSpecFns;

verus! {

/// What `fancy_regex` finds of a pattern in a text: `None` when the pattern does not
/// compile, `Err` when matching fails, `Ok(None)` without a match, and otherwise the text of
/// the group named `token`, of group 1, and of the whole match.
pub uninterp spec fn regex_groups(pattern: Seq<char>, text: Seq<char>) -> Option<
    Result<Option<(Option<Seq<char>>, Option<Seq<char>>, Option<Seq<char>>)>, ()>,
>;

/// The groups of a match: the group named `token`, group 1, and the whole match.
pub type Groups<'a> = (Option<&'a str>, Option<&'a str>, Option<&'a str>);

/// The text of an optional group.
pub open spec fn opt_view(g: Option<&str>) -> Option<Seq<char>> {
    match g {
        Some(s) => Some(s@),
        None => None,
    }
}

/// The views of the groups of a match.
pub open spec fn groups_view(g: Groups) -> (Option<Seq<char>>, Option<Seq<char>>, Option<Seq<char>>) {
    (opt_view(g.0), opt_view(g.1), opt_view(g.2))
}

/// The view of what a regular expression captures.
pub open spec fn captures_view(r: Option<Result<Option<Groups>, ()>>) -> Option<
    Result<Option<(Option<Seq<char>>, Option<Seq<char>>, Option<Seq<char>>)>, ()>,
> {
    match r {
        None => None,
        Some(Err(())) => Some(Err(())),
        Some(Ok(None)) => Some(Ok(None)),
        Some(Ok(Some(g))) => Some(Ok(Some(groups_view(g)))),
    }
}

/// `fancy_regex::Regex::new` on the pattern, then `Regex::captures` on the text, with
/// `Captures::name("token")`, `Captures::get(1)` and `Captures::get(0)`, each taken as its
/// text. What it finds depends on the pattern and the text alone and is named
/// `regex_groups`; nothing more of it is stated.
#[verifier::external_body]
fn regex_captures_groups<'a>(pattern: &str, text: &'a str) -> (r: Option<Result<Option<Groups<'a>>, ()>>)
    ensures
        captures_view(r) == regex_groups(pattern@, text@),
{
    let re = match fancy_regex::Regex::new(pattern) {
        Ok(re) => re,
        Err(_) => return None,
    };
    match re.captures(text) {
        Err(_) => Some(Err(())),
        Ok(None) => Some(Ok(None)),
        Ok(Some(c)) => Some(Ok(Some((
            c.name("token").map(|m| m.as_str()),
            c.get(1).map(|m| m.as_str()),
            c.get(0).map(|m| m.as_str()),
        )))),
    }
}

/// A pattern that only matches at the start of a text: `^` in front of it.
pub open spec fn anchored(pattern: Seq<char>) -> Seq<char> {
    seq!['^'] + pattern
}

/// The pattern of a token kind, anchored at the start of the text.
pub fn anchored_pattern(pattern: &str) -> (r: String)
    ensures
        r@ == anchored(pattern@),
{
    let mut r = String::from_str("^");
    r.append(pattern);
    proof {
        reveal_strlit("^");
    }
    r
}

/// Converts text into tokens
pub struct Lexer<T: Token> {
    root_token: T,
}

/// A byte offset into the text.
pub type ParsedTokenOffset = usize;

/// A token read from the text: its kind, the text that the token's group captured, the byte
/// offset at which its match starts, and the whole text of its match.
#[derive(Debug)]
pub struct ParsedToken<'a, T: Token> {
    pub token: T,
    pub literal: &'a str,
    pub offset: ParsedTokenOffset,
    pub full_match: &'a str,
}

pub struct ParsedTokenView<T> {
    pub token: T,
    pub literal: Seq<char>,
    pub offset: int,
    pub full_match: Seq<char>,
}

/// The view of a token.
pub open spec fn token_view<T: Token>(t: ParsedToken<T>) -> ParsedTokenView<T> {
    ParsedTokenView { token: t.token, literal: t.literal@, offset: t.offset as int, full_match: t.full_match@ }
}

/// The views of tokens.
pub open spec fn tokens_view<T: Token>(ts: Seq<ParsedToken<T>>) -> Seq<ParsedTokenView<T>> {
    ts.map_values(|t: ParsedToken<T>| token_view(t))
}

/// The tokens read from the text.
pub type ParsedTokens<'a, T> = Vec<ParsedToken<'a, T>>;

/// The text that a match gives its token: the group named `token`, else group 1, else the
/// whole match.
pub open spec fn real_capture(
    g: (Option<Seq<char>>, Option<Seq<char>>, Option<Seq<char>>),
) -> Option<Seq<char>> {
    match g.0 {
        Some(s) => Some(s),
        None => match g.1 {
            Some(s) => Some(s),
            None => g.2,
        },
    }
}

/// The text after the first `n` bytes of `source`; the cut must fall on a character
/// boundary.
pub open spec fn text_after(source: Seq<char>, n: int) -> Seq<char> {
    let b = vstd::utf8::encode_utf8(source);
    vstd::utf8::decode_utf8(b.subrange(n, b.len() as int))
}

/// Reading tokens from `source` (at byte `offset` of the whole text) after a token of kind
/// `root`, with at most `fuel` tokens deep: nothing after a terminator; otherwise the first
/// of the kinds that may follow, then of the comment kinds, whose anchored pattern matches
/// and after whose match (cut as many bytes into the text as the match is long) the rest of
/// the text reads. The tokens come last first. Running out of fuel stands for a reading
/// that never ends.
pub open spec fn lex_from<T: Token>(offset: int, source: Seq<char>, root: T, fuel: nat) -> Outcome<
    Seq<ParsedTokenView<T>>,
>
    decreases fuel, 0int,
{
    if fuel == 0 {
        Outcome::Crash
    } else if root.spec_is_terminator() {
        Outcome::Value(Seq::empty())
    } else {
        lex_candidates(
            offset,
            source,
            root,
            root.spec_next_tokens() + T::spec_comment_tokens(),
            0,
            (fuel - 1) as nat,
        )
    }
}

/// Trying the kinds `cands` from the `i`-th on.
pub open spec fn lex_candidates<T: Token>(
    offset: int,
    source: Seq<char>,
    root: T,
    cands: Seq<T>,
    i: int,
    fuel: nat,
) -> Outcome<Seq<ParsedTokenView<T>>>
    decreases fuel, cands.len() - i,
{
    if i < 0 || i >= cands.len() {
        Outcome::Error
    } else {
        let token = cands[i];
        match regex_groups(anchored(token.spec_regex()), source) {
            None => Outcome::Crash,
            Some(Err(())) => Outcome::Error,
            Some(Ok(None)) => lex_candidates(offset, source, root, cands, i + 1, fuel),
            Some(Ok(Some(g))) => match (real_capture(g), g.2) {
                (Some(literal), Some(full)) => {
                    let len = spec_bytes_len(full);
                    let next_offset = offset + len;
                    if !vstd::utf8::is_char_boundary(vstd::utf8::encode_utf8(source), len) {
                        Outcome::Crash
                    } else if next_offset > usize::MAX {
                        Outcome::Crash
                    } else {
                        let new_root = if T::spec_comment_tokens().contains(token) {
                            root
                        } else {
                            token
                        };
                        match lex_from(next_offset, text_after(source, len), new_root, fuel) {
                            Outcome::Value(sub) => Outcome::Value(
                                sub.push(
                                    ParsedTokenView { token, literal, offset, full_match: full },
                                ),
                            ),
                            Outcome::Error => lex_candidates(offset, source, root, cands, i + 1, fuel),
                            Outcome::Crash => Outcome::Crash,
                        }
                    }
                },
                _ => Outcome::Crash,
            },
        }
    }
}

/// The number of bytes of the UTF-8 encoding of a text.
pub open spec fn spec_bytes_len(s: Seq<char>) -> int {
    vstd::utf8::encode_utf8(s).len() as int
}

/// Tokens in reading order, without comments.
pub open spec fn visible_tokens<T: Token>(v: Seq<ParsedTokenView<T>>) -> Seq<ParsedTokenView<T>>
    decreases v.len(),
{
    if v.len() == 0 {
        Seq::empty()
    } else {
        let last = v.last();
        let head = if T::spec_comment_tokens().contains(last.token) {
            Seq::empty()
        } else {
            seq![last]
        };
        head + visible_tokens(v.drop_last())
    }
}

/// The deepest nesting of tokens that reading tries.
pub const LEX_FUEL: u64 = 0xffff_ffff_ffff_ffff;

/// Reading a whole text into tokens, in reading order and without comments.
pub open spec fn lex<T: Token>(source: Seq<char>, root: T) -> Outcome<Seq<ParsedTokenView<T>>> {
    match lex_from(0, source, root, LEX_FUEL as nat) {
        Outcome::Value(v) => Outcome::Value(visible_tokens(v)),
        Outcome::Error => Outcome::Error,
        Outcome::Crash => Outcome::Crash,
    }
}

impl<T: Token> Lexer<T> {
    /// A lexer whose text starts after a token of kind `root_token`.
    pub fn new(root_token: T) -> (res: Lexer<T>)
        ensures
            res.root() == root_token,
    {
        Lexer { root_token }
    }

    /// The kind of token that the text starts after.
    pub closed spec fn root(&self) -> T {
        self.root_token
    }

    /// Reads a source string into tokens, in reading order and without comments; `None`
    /// when no reading succeeds.
    pub fn parse<'a>(&self, source: &'a str) -> (res: Option<ParsedTokens<'a, T>>)
        requires
            !(lex(source@, self.root()) is Crash),
        ensures
            match lex(source@, self.root()) {
                Outcome::Value(v) => res matches Some(ts) && tokens_view(ts@) == v,
                _ => res is None,
            },
    {
        match self.parse_checked(source) {
            Some(r) => r,
            None => None,
        }
    }

    /// Reads a source string into tokens, as `parse`; the outer `None` stands for the
    /// inputs on which reading crashes.
    pub fn parse_checked<'a>(&self, source: &'a str) -> (res: Option<Option<ParsedTokens<'a, T>>>)
        ensures
            match lex(source@, self.root()) {
                Outcome::Value(v) => res matches Some(Some(ts)) && tokens_view(ts@) == v,
                Outcome::Error => res matches Some(None),
                Outcome::Crash => res is None,
            },
    {
        let tokens = match Self::recursive_parse(0, source, &self.root_token, LEX_FUEL) {
            None => return None,
            Some(None) => return Some(None),
            Some(Some(t)) => t,
        };
        let ghost v = tokens_view(tokens@);
        let mut out: Vec<ParsedToken<'a, T>> = Vec::new();
        let mut tokens = tokens;
        while tokens.len() > 0
            invariant
                visible_tokens(v) == tokens_view(out@) + visible_tokens(tokens_view(tokens@)),
            decreases tokens@.len(),
        {
            let ghost before = tokens_view(tokens@);
            let t = tokens.pop().unwrap();
            proof {
                assert(tokens_view(tokens@) =~= before.drop_last());
                assert(before.last() == token_view(t));
            }
            if !t.token.is_comment() {
                let ghost o = tokens_view(out@);
                out.push(t);
                assert(tokens_view(out@) =~= o + seq![token_view(t)]);
            }
            proof {
                let o2 = tokens_view(out@);
                assert(visible_tokens(v) =~= o2 + visible_tokens(tokens_view(tokens@)));
            }
        }
        assert(tokens_view(out@) =~= tokens_view(out@) + visible_tokens(tokens_view(tokens@)));
        Some(Some(out))
    }

    fn recursive_parse<'a>(cur_source_offset: ParsedTokenOffset, source: &'a str, root_token: &T, fuel: u64) -> (res:
        Option<Option<ParsedTokens<'a, T>>>)
        ensures
            match lex_from(cur_source_offset as int, source@, *root_token, fuel as nat) {
                Outcome::Value(v) => res matches Some(Some(ts)) && tokens_view(ts@) == v,
                Outcome::Error => res matches Some(None),
                Outcome::Crash => res is None,
            },
        decreases fuel,
    {
        if fuel == 0 {
            return None;
        }
        if root_token.is_terminator() {
            return Some(Some(Vec::new()));
        }
        let mut tokens = root_token.next_tokens();
        let mut comments = T::get_comment_tokens();
        tokens.append(&mut comments);
        let ghost cands = tokens@;
        let n = tokens.len();
        let mut i: usize = 0;
        while i < n
            invariant
                n == tokens@.len(),
                cands == tokens@,
                0 < fuel,
                i <= n,
                lex_from(cur_source_offset as int, source@, *root_token, fuel as nat) == lex_candidates(
                    cur_source_offset as int,
                    source@,
                    *root_token,
                    cands,
                    i as int,
                    (fuel - 1) as nat,
                ),
            decreases n - i,
        {
            let token = tokens[i];
            let pattern = anchored_pattern(token.regex());
            let groups = match regex_captures_groups(pattern.as_str(), source) {
                None => return None,
                Some(Err(())) => return Some(None),
                Some(Ok(None)) => {
                    i = i + 1;
                    continue;
                },
                Some(Ok(Some(g))) => g,
            };
            let captured = match groups.0 {
                Some(s) => s,
                None => match groups.1 {
                    Some(s) => s,
                    None => match groups.2 {
                        Some(m) => m,
                        None => return None,
                    },
                },
            };
            let capture = match groups.2 {
                Some(m) => m,
                None => return None,
            };
            let capture_offset = capture.as_bytes().len();
            let ghost gv = groups_view(groups);
            assert(real_capture(gv) == Some(captured@));
            assert(gv.2 == Some(capture@));
            assert(spec_bytes_len(capture@) == capture_offset);
            if !source.is_char_boundary(capture_offset) {
                return None;
            }
            let (_, rest) = source.split_at(capture_offset);
            proof {
                vstd::utf8::encode_utf8_decode_utf8(rest@);
                assert(rest@ == text_after(source@, capture_offset as int));
            }
            if capture_offset > usize::MAX - cur_source_offset {
                return None;
            }
            let is_comment = token.is_comment();
            let new_root = if is_comment {
                *root_token
            } else {
                token
            };
            let ghost step = lex_candidates(
                cur_source_offset as int,
                source@,
                *root_token,
                cands,
                i as int,
                (fuel - 1) as nat,
            );
            let ghost deeper = lex_from(
                cur_source_offset + capture_offset,
                rest@,
                new_root,
                (fuel - 1) as nat,
            );
            assert(step == match deeper {
                Outcome::Value(sub) => Outcome::Value(
                    sub.push(
                        ParsedTokenView {
                            token,
                            literal: captured@,
                            offset: cur_source_offset as int,
                            full_match: capture@,
                        },
                    ),
                ),
                Outcome::Error => lex_candidates(
                    cur_source_offset as int,
                    source@,
                    *root_token,
                    cands,
                    i + 1,
                    (fuel - 1) as nat,
                ),
                Outcome::Crash => Outcome::Crash,
            });
            match Self::recursive_parse(cur_source_offset + capture_offset, rest, &new_root, fuel - 1) {
                None => return None,
                Some(None) => {
                    i = i + 1;
                },
                Some(Some(mut subpath)) => {
                    let ghost sub = tokens_view(subpath@);
                    let t = ParsedToken {
                        token,
                        literal: captured,
                        offset: cur_source_offset,
                        full_match: capture,
                    };
                    subpath.push(t);
                    assert(tokens_view(subpath@) =~= sub.push(token_view(t)));
                    return Some(Some(subpath));
                },
            }
        }
        Some(None)
    }
}

} // verus!
