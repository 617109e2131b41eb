//! What a parse of untrusted bytes comes to.
use vstd::prelude::*;

verus! {

/// The result of reading some input: a value, a refusal (an `Err`), or a crash, where the
/// reading panics on an out-of-range index or never returns.
pub enum Outcome<T> {
    Value(T),
    Error,
    Crash,
}

/// Whether an error result carries the message `t`
/// (`t` is `None` where there is no error).
pub open spec fn error_message_is<X>(res: Option<Result<X, String>>, t: Option<Seq<char>>) -> bool {
    match (res, t) {
        (Some(Err(e)), Some(t)) => e@ == t,
        _ => true,
    }
}

} // verus!
