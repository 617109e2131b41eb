//! The kinds of token of a language.
use vstd::prelude::*;

verus! {

/// A kind of token of a language: the regular expression that reads it at the start of the
/// text left, the kinds that may follow it, and whether it ends the text.
pub trait Token: Copy + Sized {
    /// The regular expression of the kind, in the form `regex` returns it.
    spec fn spec_regex(&self) -> Seq<char>;

    /// The kinds that may follow this one, in the order in which they are tried.
    spec fn spec_next_tokens(&self) -> Seq<Self>;

    /// Whether this kind ends the text.
    spec fn spec_is_terminator(&self) -> bool;

    /// The kinds that are comments.
    spec fn spec_comment_tokens() -> Seq<Self>;

    /// The regular expression that reads a token of this kind.
    fn regex(&self) -> (r: &'static str)
        ensures
            r@ == self.spec_regex(),
    ;

    /// The kinds that may follow this one, in the order in which they are tried.
    fn next_tokens(&self) -> (r: Vec<Self>)
        ensures
            r@ == self.spec_next_tokens(),
    ;

    /// Whether this kind ends the text.
    fn is_terminator(&self) -> (r: bool)
        ensures
            r == self.spec_is_terminator(),
    ;

    /// The kinds that are comments: they may stand anywhere in the text, are tried after the
    /// kinds that may follow, and are not handed on to the parser.
    fn get_comment_tokens() -> (r: Vec<Self>)
        ensures
            r@ == Self::spec_comment_tokens(),
    ;

    /// Whether two kinds are the same.
    fn same_token(&self, other: &Self) -> (r: bool)
        ensures
            r == (*self == *other),
    ;

    /// Whether this kind is a comment.
    fn is_comment(&self) -> (r: bool)
        ensures
            r == Self::spec_comment_tokens().contains(*self),
    {
        let comments = Self::get_comment_tokens();
        let n = comments.len();
        let mut i: usize = 0;
        while i < n
            invariant
                n == comments@.len(),
                comments@ == Self::spec_comment_tokens(),
                i <= n,
                forall|k: int| 0 <= k < i ==> comments@[k] != *self,
            decreases n - i,
        {
            if comments[i].same_token(self) {
                assert(comments@[i as int] == *self);
                return true;
            }
            i = i + 1;
        }
        false
    }
}

} // verus!
