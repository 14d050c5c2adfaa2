//! The text of an error of the operating system.

use vstd::prelude::*;
use vstd::string::*;
use crate::text::{chars_of, matches_at, starts_with, trim, trimmed};

verus! {

/// What is known of a failed call into the operating system.
#[derive(Clone, Debug, PartialEq, Eq)]
pub struct OsError {
    /// The error number, where the system gave one.
    pub errno: Option<i32>,
    /// What the system says that error number means.
    pub description: String,
    /// The error as it is displayed.
    pub message: String,
}

/// An error that can say in a few words what went wrong.
pub trait StrError {
    /// What went wrong.
    fn str(&self) -> String;
}

impl StrError for OsError {
    /// The system's description of the error number where there is one,
    /// else the error as it is displayed.
    fn str(&self) -> (text: String)
        ensures
            text@ == if self.errno is Some {
                self.description@
            } else {
                self.message@
            },
    {
        match self.errno {
            Some(_) => self.description.clone(),
            None => self.message.clone(),
        }
    }
}

/// The first position from `from` on at which `pattern` occurs in `s`; the
/// length of `s` where it does not occur.
pub open spec fn first_match(s: Seq<char>, pattern: Seq<char>, from: int) -> int
    decreases s.len() - from,
{
    if 0 <= from < s.len() {
        if starts_with(s.skip(from), pattern) {
            from
        } else {
            first_match(s, pattern, from + 1)
        }
    } else {
        s.len() as int
    }
}

/// The mark after which the number of an error follows.
pub open spec fn os_mark() -> Seq<char> {
    " (os error"@
}

/// A displayed error without the number of the error: what stands before
/// the first ` (os error`, without white space at either end.
pub open spec fn cleared(message: Seq<char>) -> Seq<char> {
    trimmed(message.take(first_match(message, os_mark(), 0)))
}

/// A displayed error without the number of the error.
pub fn clear_error(message: &str) -> (text: String)
    ensures
        text@ == cleared(message@),
{
    let chars = chars_of(message);
    let mark = chars_of(" (os error");
    let mut cut: usize = 0;
    while cut < chars.len()
        invariant
            cut <= chars.len(),
            mark@ == os_mark(),
            first_match(chars@, os_mark(), 0) == first_match(chars@, os_mark(), cut as int),
        ensures
            cut <= chars.len(),
            cut == first_match(chars@, os_mark(), 0),
        decreases chars.len() - cut,
    {
        if matches_at(&chars, cut, &mark) {
            break ;
        }
        cut = cut + 1;
    }
    let mut kept = chars;
    kept.truncate(cut);
    assert(kept@ == message@.take(cut as int));
    trim(&kept)
}

} // verus!
