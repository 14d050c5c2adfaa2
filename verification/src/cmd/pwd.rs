//! `pwd`: what to print.

use vstd::prelude::*;
use vstd::string::*;
use crate::env::{env_find, env_view, find};

verus! {

/// What `pwd` does.
#[derive(Debug, PartialEq, Eq)]
pub enum Answer {
    /// Print this directory and succeed.
    Print(String),
    /// Print this complaint and fail.
    Complain(String),
    /// `PWD` is not set: print the directory that the system reports, and
    /// succeed.
    AskSystem,
}

/// The mathematical value of an [`Answer`].
pub ghost enum AnswerView {
    Print(Seq<char>),
    Complain(Seq<char>),
    AskSystem,
}

impl View for Answer {
    type V = AnswerView;

    open spec fn view(&self) -> AnswerView {
        match self {
            Answer::Print(text) => AnswerView::Print(text@),
            Answer::Complain(text) => AnswerView::Complain(text@),
            Answer::AskSystem => AnswerView::AskSystem,
        }
    }
}

/// What `pwd` does for `count` operands with the variables `env`: it
/// takes no operand, and prints `PWD` where that is set.
pub open spec fn spec_answer(count: nat, env: Seq<(Seq<char>, Seq<char>)>) -> AnswerView {
    if count != 0 {
        AnswerView::Complain("pwd: too many arguments"@)
    } else {
        match env_find(env, "PWD"@) {
            Some(path) => AnswerView::Print(path),
            None => AnswerView::AskSystem,
        }
    }
}

/// What `pwd` does for `args` with the variables `env`.
pub fn answer(args: &Vec<String>, env: &Vec<(String, String)>) -> (result: Answer)
    ensures
        result@ == spec_answer(args@.len(), env_view(env@)),
{
    if args.len() != 0 {
        return Answer::Complain(String::from_str("pwd: too many arguments"));
    }
    match find(env, "PWD") {
        Some(path) => Answer::Print(path),
        None => Answer::AskSystem,
    }
}

/// The status of `pwd` for an answer: 1 for a complaint, 0 for anything
/// else.
pub fn status(answer: &Answer) -> (code: i32)
    ensures
        code == if answer@ is Complain {
            1i32
        } else {
            0i32
        },
{
    match answer {
        Answer::Complain(_) => 1,
        _ => 0,
    }
}

} // verus!
