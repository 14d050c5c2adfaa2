//! `mv`: which file is moved where, and how.

use vstd::prelude::*;
use vstd::string::*;
use crate::cmd::cd::{components_of, path_components};
use crate::text::{chars_of, texts};

verus! {

/// The last component of `path`, unless there is none or it is `..`.
pub open spec fn file_name(path: Seq<char>) -> Option<Seq<char>> {
    let parts = path_components(path);
    if parts.len() == 0 || parts.last() == ".."@ {
        None
    } else {
        Some(parts.last())
    }
}

/// The path of the entry `name` of the directory `dir`.
pub open spec fn child(dir: Seq<char>, name: Seq<char>) -> Seq<char> {
    if dir.len() == 0 {
        name
    } else if dir.last() == '/' {
        dir + name
    } else {
        dir + seq!['/'] + name
    }
}

/// The last component of `path`.
pub fn file_name_of(path: &str) -> (name: Option<String>)
    ensures
        match name {
            Some(name) => file_name(path@) == Some(name@),
            None => file_name(path@) is None,
        },
{
    let chars = chars_of(path);
    let mut parts = components_of(&chars);
    let ghost all = texts(parts@);
    match parts.pop() {
        Some(last) => {
            assert(all.last() == last@);
            let up = String::from_str("..");
            if last == up {
                None
            } else {
                Some(last)
            }
        },
        None => None,
    }
}

/// The path of the entry `name` of the directory `dir`.
pub fn child_path(dir: &str, name: &str) -> (path: String)
    ensures
        path@ == child(dir@, name@),
{
    let chars = chars_of(dir);
    if chars.len() == 0 {
        return name.to_owned();
    }
    let mut path = dir.to_owned();
    if chars[chars.len() - 1] != '/' {
        path.push('/');
    }
    path.append(name);
    assert(path@ =~= child(dir@, name@));
    path
}

/// One thing for `mv` to do.
#[derive(Debug, PartialEq, Eq)]
pub enum Item {
    /// Move the first path to the second.
    Move(String, String),
    /// Complain that this source has no name to move it by.
    Invalid(String),
}

/// The mathematical value of an [`Item`].
pub ghost enum ItemView {
    Move(Seq<char>, Seq<char>),
    Invalid(Seq<char>),
}

impl View for Item {
    type V = ItemView;

    open spec fn view(&self) -> ItemView {
        match self {
            Item::Move(from, to) => ItemView::Move(from@, to@),
            Item::Invalid(from) => ItemView::Invalid(from@),
        }
    }
}

/// The views of a list of items.
pub open spec fn item_views(items: Seq<Item>) -> Seq<ItemView> {
    Seq::new(items.len(), |i: int| items[i]@)
}

/// What `mv` does with one of several sources that go into the directory
/// `dest`.
pub open spec fn item_into(source: Seq<char>, dest: Seq<char>) -> ItemView {
    match file_name(source) {
        Some(name) => ItemView::Move(source, child(dest, name)),
        None => ItemView::Invalid(source),
    }
}

/// What `mv` does for `args`, or its complaint.
///
/// The last operand is the destination.  A single source is moved to it,
/// or into it where it is a directory.  Several sources need a directory,
/// and each is moved into it under its own name.
pub open spec fn spec_plan(args: Seq<Seq<char>>, dest_is_dir: bool) -> Result<
    Seq<ItemView>,
    Seq<char>,
> {
    if args.len() == 0 {
        Err("mv: missing file operand"@)
    } else if args.len() == 1 {
        Err("mv: missing destination file operand after '"@ + args[0] + "'"@)
    } else {
        let dest = args.last();
        if args.len() == 2 {
            if dest_is_dir {
                Ok(
                    seq![
                        ItemView::Move(
                            args[0],
                            child(
                                dest,
                                match file_name(args[0]) {
                                    Some(name) => name,
                                    None => Seq::empty(),
                                },
                            ),
                        ),
                    ],
                )
            } else {
                Ok(seq![ItemView::Move(args[0], dest)])
            }
        } else if !dest_is_dir {
            Err("mv: target '"@ + dest + "' is not a directory"@)
        } else {
            Ok(Seq::new((args.len() - 1) as nat, |i: int| item_into(args[i], dest)))
        }
    }
}

/// The view of a plan.
pub open spec fn plan_view(plan: Result<Vec<Item>, String>) -> Result<Seq<ItemView>, Seq<char>> {
    match plan {
        Ok(items) => Ok(item_views(items@)),
        Err(message) => Err(message@),
    }
}

/// What `mv` does for `args`, `dest_is_dir` being whether the last of
/// them is a directory, or the complaint with which it gives up.
pub fn plan(args: &Vec<String>, dest_is_dir: bool) -> (result: Result<Vec<Item>, String>)
    ensures
        plan_view(result) == spec_plan(texts(args@), dest_is_dir),
{
    let ghost all = texts(args@);
    if args.len() == 0 {
        return Err(String::from_str("mv: missing file operand"));
    }
    assert(all[0] == args@[0]@);
    if args.len() == 1 {
        let mut message = String::from_str("mv: missing destination file operand after '");
        message.append(args[0].as_str());
        message.append("'");
        return Err(message);
    }
    let dest = &args[args.len() - 1];
    assert(all.last() == dest@);
    let ghost goal = spec_plan(all, dest_is_dir)->Ok_0;
    let mut items: Vec<Item> = Vec::new();
    if args.len() == 2 {
        let to = if dest_is_dir {
            let name = match file_name_of(args[0].as_str()) {
                Some(name) => name,
                None => String::new(),
            };
            child_path(dest.as_str(), name.as_str())
        } else {
            dest.clone()
        };
        items.push(Item::Move(args[0].clone(), to));
        assert(item_views(items@) =~= goal);
        return Ok(items);
    }
    if !dest_is_dir {
        let mut message = String::from_str("mv: target '");
        message.append(dest.as_str());
        message.append("' is not a directory");
        return Err(message);
    }
    let mut i: usize = 0;
    assert(item_views(items@) =~= goal.take(0));
    while i < args.len() - 1
        invariant
            i <= args.len() - 1,
            args.len() > 2,
            dest_is_dir,
            all == texts(args@),
            dest@ == all.last(),
            goal == spec_plan(all, dest_is_dir)->Ok_0,
            item_views(items@) == goal.take(i as int),
        decreases args.len() - i,
    {
        let ghost done = item_views(items@);
        assert(all[i as int] == args@[i as int]@);
        match file_name_of(args[i].as_str()) {
            Some(name) => {
                let to = child_path(dest.as_str(), name.as_str());
                items.push(Item::Move(args[i].clone(), to));
            },
            None => {
                items.push(Item::Invalid(args[i].clone()));
            },
        }
        assert(item_views(items@) =~= done.push(goal[i as int]));
        assert(goal.take(i + 1) =~= goal.take(i as int).push(goal[i as int]));
        i = i + 1;
    }
    assert(goal.take(i as int) =~= goal);
    Ok(items)
}

/// The complaint about a source without a name.
pub fn invalid(source: &str) -> (message: String)
    ensures
        message@ == "mv: invalid source path '"@ + source@ + "'"@,
{
    let mut message = String::from_str("mv: invalid source path '");
    message.append(source);
    message.append("'");
    message
}

/// How one move is made.
#[derive(Debug, PartialEq, Eq)]
pub enum Step {
    /// Write this to standard error; the move fails.
    Complain(String),
    /// Remove the destination, then rename the source to it.
    ReplaceFile,
    /// Rename the source to the destination.
    Rename,
}

/// The mathematical value of a [`Step`].
pub ghost enum StepView {
    Complain(Seq<char>),
    ReplaceFile,
    Rename,
}

impl View for Step {
    type V = StepView;

    open spec fn view(&self) -> StepView {
        match self {
            Step::Complain(message) => StepView::Complain(message@),
            Step::ReplaceFile => StepView::ReplaceFile,
            Step::Rename => StepView::Rename,
        }
    }
}

/// How the move of `from` to `to` is made.  `source` and `dest` say of each
/// whether it is a directory, and are `None` where it does not exist.
pub open spec fn spec_step(
    from: Seq<char>,
    to: Seq<char>,
    source: Option<bool>,
    dest: Option<bool>,
) -> StepView {
    if source is None {
        StepView::Complain("mv: cannot stat '"@ + from + "': No such file or directory"@)
    } else if dest == Some(true) && source == Some(false) {
        StepView::Complain(
            "mv: cannot overwrite directory '"@ + to + "' with non-directory"@,
        )
    } else if dest == Some(false) {
        StepView::ReplaceFile
    } else {
        StepView::Rename
    }
}

/// How the move of `from` to `to` is made.
pub fn step(from: &str, to: &str, source: Option<bool>, dest: Option<bool>) -> (next: Step)
    ensures
        next@ == spec_step(from@, to@, source, dest),
{
    let source_is_dir = match source {
        None => {
            let mut message = String::from_str("mv: cannot stat '");
            message.append(from);
            message.append("': No such file or directory");
            return Step::Complain(message);
        },
        Some(is_dir) => is_dir,
    };
    match dest {
        Some(true) => {
            if !source_is_dir {
                let mut message = String::from_str("mv: cannot overwrite directory '");
                message.append(to);
                message.append("' with non-directory");
                return Step::Complain(message);
            }
            Step::Rename
        },
        Some(false) => Step::ReplaceFile,
        None => Step::Rename,
    }
}

/// The complaint that the destination `to` could not be removed.
pub fn remove_failure(to: &str, reason: &str) -> (message: String)
    ensures
        message@ == "mv: cannot remove '"@ + to@ + "': "@ + reason@,
{
    let mut message = String::from_str("mv: cannot remove '");
    message.append(to);
    message.append("': ");
    message.append(reason);
    message
}

/// The complaint that `from` could not be moved to `to`.
pub fn rename_failure(from: &str, to: &str, reason: &str) -> (message: String)
    ensures
        message@ == "mv: cannot move '"@ + from@ + "' to '"@ + to@ + "': "@ + reason@,
{
    let mut message = String::from_str("mv: cannot move '");
    message.append(from);
    message.append("' to '");
    message.append(to);
    message.append("': ");
    message.append(reason);
    message
}

} // verus!
