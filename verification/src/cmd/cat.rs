//! `cat`: what to read, in which order.

use vstd::prelude::*;
use vstd::string::*;
use crate::text::texts;

verus! {

/// Something that `cat` copies to standard output.
#[derive(Debug, PartialEq, Eq)]
pub enum Source {
    /// Standard input, line by line, to its end.
    Stdin,
    /// The file of this name.
    File(String),
}

/// The mathematical value of a [`Source`].
pub ghost enum SourceView {
    Stdin,
    File(Seq<char>),
}

impl View for Source {
    type V = SourceView;

    open spec fn view(&self) -> SourceView {
        match self {
            Source::Stdin => SourceView::Stdin,
            Source::File(name) => SourceView::File(name@),
        }
    }
}

/// The views of a list of sources.
pub open spec fn source_views(sources: Seq<Source>) -> Seq<SourceView> {
    Seq::new(sources.len(), |i: int| sources[i]@)
}

/// What the operand `name` stands for: standard input for `-`, the file
/// of that name otherwise.
pub open spec fn source_of(name: Seq<char>) -> SourceView {
    if name == "-"@ {
        SourceView::Stdin
    } else {
        SourceView::File(name)
    }
}

/// What `cat` copies for `args`: standard input where there is no operand,
/// else what each operand stands for, in order.
pub open spec fn spec_sources(args: Seq<Seq<char>>) -> Seq<SourceView> {
    if args.len() == 0 {
        seq![SourceView::Stdin]
    } else {
        Seq::new(args.len(), |i: int| source_of(args[i]))
    }
}

/// What `cat` copies for `args`.
pub fn sources(args: &Vec<String>) -> (list: Vec<Source>)
    ensures
        source_views(list@) == spec_sources(texts(args@)),
{
    let ghost all = texts(args@);
    let ghost goal = spec_sources(all);
    let mut list: Vec<Source> = Vec::new();
    if args.len() == 0 {
        list.push(Source::Stdin);
        assert(source_views(list@) =~= goal);
        return list;
    }
    let dash = String::from_str("-");
    let mut i: usize = 0;
    assert(source_views(list@) =~= goal.take(0));
    while i < args.len()
        invariant
            i <= args.len(),
            args.len() > 0,
            all == texts(args@),
            goal == spec_sources(all),
            dash@ == "-"@,
            source_views(list@) == goal.take(i as int),
        decreases args.len() - i,
    {
        let ghost done = source_views(list@);
        assert(all[i as int] == args@[i as int]@);
        if args[i] == dash {
            list.push(Source::Stdin);
        } else {
            list.push(Source::File(args[i].clone()));
        }
        assert(source_views(list@) =~= done.push(goal[i as int]));
        assert(goal.take(i + 1) =~= goal.take(i as int).push(goal[i as int]));
        i = i + 1;
    }
    assert(goal.take(i as int) =~= goal);
    list
}

/// The complaint that the file `name` could not be read, for the reason
/// given.
pub fn failure(name: &str, reason: &str) -> (message: String)
    ensures
        message@ == "cat: "@ + name@ + ": "@ + reason@,
{
    let mut message = String::from_str("cat: ");
    message.append(name);
    message.append(": ");
    message.append(reason);
    message
}

} // verus!
