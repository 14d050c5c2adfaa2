//! `cp`: which file is copied to which.

use vstd::prelude::*;
use vstd::string::*;
use crate::text::{
    after_last,
    chars_of,
    substring,
    tail_start_of,
    texts,
    trim_end_len,
    trim_end_matches,
};

verus! {

/// The path of a copy of `source_file` inside the directory `target`:
/// `target` without the slashes at its end, one slash, and the last
/// component of `source_file`.
pub open spec fn joined_target(source_file: Seq<char>, target: Seq<char>) -> Seq<char> {
    trim_end_matches(target, '/') + seq!['/'] + after_last(source_file, '/')
}

/// The path of a copy of `source_file` inside the directory `target`.
pub fn join_target_path(source_file: &str, target: &str) -> (path: String)
    ensures
        path@ == joined_target(source_file@, target@),
{
    let source = chars_of(source_file);
    let directory = chars_of(target);
    let keep = trim_end_len(&directory, '/');
    let start = tail_start_of(&source, '/');
    let mut path = substring(&directory, 0, keep);
    path.push('/');
    let name = substring(&source, start, source.len());
    path.append(name.as_str());
    assert(directory@.subrange(0, keep as int) == directory@.take(keep as int));
    assert(source@.subrange(start as int, source.len() as int) == source@.skip(start as int));
    path
}

/// What the file system says of the last operand.
#[derive(Debug, PartialEq, Eq)]
pub enum Probe {
    /// It is a directory.
    Directory,
    /// It exists and is no directory.
    NotDirectory,
    /// It could not be examined, for this reason.
    Failed(String),
}

/// One copy to make.
#[derive(Debug, PartialEq, Eq)]
pub struct Transfer {
    pub from: String,
    pub to: String,
}

/// The mathematical value of a [`Transfer`].
pub ghost struct CopyView {
    pub from: Seq<char>,
    pub to: Seq<char>,
}

impl View for Transfer {
    type V = CopyView;

    open spec fn view(&self) -> CopyView {
        CopyView { from: self.from@, to: self.to@ }
    }
}

/// The views of a list of copies.
pub open spec fn copy_views(copies: Seq<Transfer>) -> Seq<CopyView> {
    Seq::new(copies.len(), |i: int| copies[i]@)
}

/// The complaint about a missing operand.
pub open spec fn missing_operand_text() -> Seq<char> {
    "cp: missing file operand"@
}

/// The complaint about a missing destination.
pub open spec fn missing_destination_text(source: Seq<char>) -> Seq<char> {
    "cp: missing destination file operand after '"@ + source + "'"@
}

/// The complaint about a target that had to be a directory.
pub open spec fn bad_target_text(target: Seq<char>, reason: Seq<char>) -> Seq<char> {
    "cp: target '"@ + target + "': "@ + reason
}

/// The copies that `cp` makes for `args`, or its complaint.
///
/// With two operands the first is copied to the second, or into it where
/// it is a directory.  With more, the last must be a directory and every
/// other operand is copied into it.
pub open spec fn spec_plan(args: Seq<Seq<char>>, probe: Probe) -> Result<Seq<CopyView>, Seq<char>> {
    if args.len() == 0 {
        Err(missing_operand_text())
    } else if args.len() == 1 {
        Err(missing_destination_text(args[0]))
    } else {
        let target = args.last();
        if args.len() == 2 {
            Ok(
                seq![
                    CopyView {
                        from: args[0],
                        to: if probe is Directory {
                            joined_target(args[0], target)
                        } else {
                            target
                        },
                    },
                ],
            )
        } else {
            match probe {
                Probe::Directory => Ok(
                    Seq::new(
                        (args.len() - 1) as nat,
                        |i: int| CopyView { from: args[i], to: joined_target(args[i], target) },
                    ),
                ),
                Probe::NotDirectory => Err(bad_target_text(target, "Not a directory"@)),
                Probe::Failed(reason) => Err(bad_target_text(target, reason@)),
            }
        }
    }
}

/// The view of a plan.
pub open spec fn plan_view(plan: Result<Vec<Transfer>, String>) -> Result<Seq<CopyView>, Seq<char>> {
    match plan {
        Ok(copies) => Ok(copy_views(copies@)),
        Err(message) => Err(message@),
    }
}

/// The copies that `cp` makes for `args`, `probe` being what the file
/// system says of the last of them, or the complaint with which it gives
/// up.
pub fn plan(args: &Vec<String>, probe: Probe) -> (result: Result<Vec<Transfer>, String>)
    ensures
        plan_view(result) == spec_plan(texts(args@), probe),
{
    let ghost all = texts(args@);
    if args.len() == 0 {
        return Err(String::from_str("cp: missing file operand"));
    }
    assert(all[0] == args@[0]@);
    if args.len() == 1 {
        let mut message = String::from_str("cp: missing destination file operand after '");
        message.append(args[0].as_str());
        message.append("'");
        return Err(message);
    }
    let target = &args[args.len() - 1];
    assert(all.last() == target@);
    if args.len() == 2 {
        let to = match probe {
            Probe::Directory => join_target_path(args[0].as_str(), target.as_str()),
            _ => target.clone(),
        };
        let mut copies: Vec<Transfer> = Vec::new();
        copies.push(Transfer { from: args[0].clone(), to });
        assert(copy_views(copies@) =~= spec_plan(all, probe)->Ok_0);
        return Ok(copies);
    }
    match probe {
        Probe::Directory => {},
        Probe::NotDirectory => {
            let mut message = String::from_str("cp: target '");
            message.append(target.as_str());
            message.append("': ");
            message.append("Not a directory");
            return Err(message);
        },
        Probe::Failed(reason) => {
            let mut message = String::from_str("cp: target '");
            message.append(target.as_str());
            message.append("': ");
            message.append(reason.as_str());
            return Err(message);
        },
    }
    let mut copies: Vec<Transfer> = Vec::new();
    let mut i: usize = 0;
    let ghost goal = spec_plan(all, probe)->Ok_0;
    while i < args.len() - 1
        invariant
            i <= args.len() - 1,
            args.len() > 2,
            all == texts(args@),
            target@ == all.last(),
            probe is Directory,
            goal == spec_plan(all, probe)->Ok_0,
            copy_views(copies@) == goal.take(i as int),
        decreases args.len() - i,
    {
        let ghost done = copy_views(copies@);
        let to = join_target_path(args[i].as_str(), target.as_str());
        copies.push(Transfer { from: args[i].clone(), to });
        assert(all[i as int] == args@[i as int]@);
        assert(copy_views(copies@) =~= done.push(goal[i as int]));
        assert(goal.take(i + 1) =~= goal.take(i as int).push(goal[i as int]));
        i = i + 1;
    }
    assert(goal.take(i as int) =~= goal);
    Ok(copies)
}

/// What the file system says of a file to copy.
#[derive(Debug, PartialEq, Eq)]
pub enum Source {
    /// It could not be examined, for this reason.
    Missing(String),
    /// It is a directory.
    Directory,
    /// It can be copied.
    File,
}

/// Why `from` is not copied to `to`, if it is not: it cannot be examined,
/// it is a directory, or it is the file it would be copied to.
pub open spec fn spec_refusal(from: Seq<char>, to: Seq<char>, source: Source, same: bool) -> Option<
    Seq<char>,
> {
    match source {
        Source::Missing(reason) => Some("cp: cannot stat '"@ + from + "' "@ + reason@),
        Source::Directory => Some("cp: -r not specified; omitting directory '"@ + from + "'"@),
        Source::File => if same {
            Some("cp: '"@ + from + "' and '"@ + to + "' are the same file"@)
        } else {
            None
        },
    }
}

/// Why `from` is not copied to `to`, if it is not.  `same` says whether the
/// two are one file.
pub fn refusal(from: &str, to: &str, source: &Source, same: bool) -> (message: Option<String>)
    ensures
        match message {
            Some(message) => spec_refusal(from@, to@, *source, same) == Some(message@),
            None => spec_refusal(from@, to@, *source, same) is None,
        },
{
    match source {
        Source::Missing(reason) => {
            let mut message = String::from_str("cp: cannot stat '");
            message.append(from);
            message.append("' ");
            message.append(reason.as_str());
            Some(message)
        },
        Source::Directory => {
            let mut message = String::from_str("cp: -r not specified; omitting directory '");
            message.append(from);
            message.append("'");
            Some(message)
        },
        Source::File => {
            if same {
                let mut message = String::from_str("cp: '");
                message.append(from);
                message.append("' and '");
                message.append(to);
                message.append("' are the same file");
                Some(message)
            } else {
                None
            }
        },
    }
}

/// The complaint that nothing could be copied to `to`, for the reason
/// given.
pub fn copy_failure(to: &str, reason: &str) -> (message: String)
    ensures
        message@ == bad_target_text(to@, reason@),
{
    let mut message = String::from_str("cp: target '");
    message.append(to);
    message.append("': ");
    message.append(reason);
    message
}

} // verus!
