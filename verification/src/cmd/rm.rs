//! `rm`: reading the options, and what to do with each operand.

use vstd::prelude::*;
use vstd::string::*;
use crate::text::{chars_of, ends_with, has_suffix, string_of_char, texts};

verus! {

/// What `rm` was asked to do.
#[derive(Debug, PartialEq, Eq)]
pub struct Request {
    /// Whether directories are removed with all they hold.
    pub recursive: bool,
    /// The operands to remove, in the order in which they are handled.
    pub paths: Vec<String>,
}

/// The mathematical value of a [`Request`].
pub ghost struct RequestView {
    pub recursive: bool,
    pub paths: Seq<Seq<char>>,
}

impl View for Request {
    type V = RequestView;

    open spec fn view(&self) -> RequestView {
        RequestView { recursive: self.recursive, paths: texts(self.paths@) }
    }
}

/// The complaint about a missing operand.
pub open spec fn missing_operand_text() -> Seq<char> {
    "rm: missing operand"@
}

/// The complaint about an option that starts with more than one dash.
pub open spec fn unrecognized_text(operand: Seq<char>) -> Seq<char> {
    "rm: unrecognized option '"@ + operand + "'"@
}

/// The complaint about an option letter other than `r`.
pub open spec fn invalid_text(letter: char) -> Seq<char> {
    "rm: invalid option -- '"@ + seq![letter] + "'"@
}

/// The position of the first `--` among `args` from `from` on; the length
/// of `args` where there is none.
pub open spec fn limiter(args: Seq<Seq<char>>, from: int) -> int
    decreases args.len() - from,
{
    if 0 <= from < args.len() {
        if args[from] == "--"@ {
            from
        } else {
            limiter(args, from + 1)
        }
    } else {
        args.len() as int
    }
}

/// The complaint about the option letters of `operand` from position `i`
/// on, if one of them is not `r`.
pub open spec fn letters_fault(operand: Seq<char>, i: int) -> Option<Seq<char>>
    decreases operand.len() - i,
{
    if 0 <= i < operand.len() {
        if operand[i] == '-' {
            Some(unrecognized_text(operand))
        } else if operand[i] != 'r' {
            Some(invalid_text(operand[i]))
        } else {
            letters_fault(operand, i + 1)
        }
    } else {
        None
    }
}

/// Whether `operand` is read as options: it starts with a dash and is not
/// the dash alone.
pub open spec fn is_option(operand: Seq<char>) -> bool {
    operand.len() > 1 && operand[0] == '-'
}

/// What the operands from `i` up to `end` add to what has been read.
/// `-r` and `--r` ask for recursion, `---` says nothing, any other option
/// must be made of the letter `r`, and everything else is a path.
pub open spec fn scan(
    args: Seq<Seq<char>>,
    i: int,
    end: int,
    recursive: bool,
    paths: Seq<Seq<char>>,
) -> Result<RequestView, Seq<char>>
    decreases end - i,
{
    if 0 <= i < end <= args.len() {
        let operand = args[i];
        if operand == "-r"@ || operand == "--r"@ {
            scan(args, i + 1, end, true, paths)
        } else if operand == "---"@ {
            scan(args, i + 1, end, recursive, paths)
        } else if is_option(operand) {
            match letters_fault(operand, 1) {
                Some(message) => Err(message),
                None => scan(args, i + 1, end, true, paths),
            }
        } else {
            scan(args, i + 1, end, recursive, paths.push(operand))
        }
    } else {
        Ok(RequestView { recursive, paths })
    }
}

/// What `rm` is asked to do by `args`, or its complaint.  What follows the
/// first `--` is taken as paths, and comes before the paths that stand
/// before it.
pub open spec fn spec_parse(args: Seq<Seq<char>>) -> Result<RequestView, Seq<char>> {
    if args.len() == 0 {
        Err(missing_operand_text())
    } else {
        let end = limiter(args, 0);
        let after = if end < args.len() {
            args.skip(end + 1)
        } else {
            Seq::empty()
        };
        match scan(args, 0, end, false, after) {
            Ok(request) => if request.paths.len() == 0 {
                Err(missing_operand_text())
            } else {
                Ok(request)
            },
            Err(message) => Err(message),
        }
    }
}

/// The view of what was read.
pub open spec fn parse_view(result: Result<Request, String>) -> Result<RequestView, Seq<char>> {
    match result {
        Ok(request) => Ok(request@),
        Err(message) => Err(message@),
    }
}

/// Whether `text` is the word `word`.
fn is_word(text: &String, word: &str) -> (same: bool)
    ensures
        same == (text@ == word@),
{
    let other = word.to_owned();
    *text == other
}

/// The position of the first `--` among `args`.
fn find_limiter(args: &Vec<String>) -> (end: usize)
    ensures
        end == limiter(texts(args@), 0),
        end <= args.len(),
{
    let ghost all = texts(args@);
    let mut i: usize = 0;
    while i < args.len()
        invariant
            i <= args.len(),
            all == texts(args@),
            limiter(all, 0) == limiter(all, i as int),
        decreases args.len() - i,
    {
        assert(all[i as int] == args@[i as int]@);
        if is_word(&args[i], "--") {
            return i;
        }
        i = i + 1;
    }
    i
}

/// The complaint about the option letters of `operand`, if there is one.
fn check_letters(operand: &String) -> (fault: Option<String>)
    ensures
        match fault {
            Some(message) => letters_fault(operand@, 1) == Some(message@),
            None => letters_fault(operand@, 1) is None,
        },
{
    let chars = chars_of(operand.as_str());
    let mut i: usize = 1;
    while i < chars.len()
        invariant
            1 <= i,
            chars@ == operand@,
            letters_fault(operand@, 1) == letters_fault(operand@, i as int),
        decreases chars.len() - i,
    {
        if chars[i] == '-' {
            let mut message = String::from_str("rm: unrecognized option '");
            message.append(operand.as_str());
            message.append("'");
            return Some(message);
        } else if chars[i] != 'r' {
            let mut message = String::from_str("rm: invalid option -- '");
            message.append(string_of_char(chars[i]).as_str());
            message.append("'");
            return Some(message);
        }
        i = i + 1;
    }
    None
}

/// Reads the operands of `rm`.
pub fn parse(args: &Vec<String>) -> (result: Result<Request, String>)
    ensures
        parse_view(result) == spec_parse(texts(args@)),
{
    if args.len() == 0 {
        return Err(String::from_str("rm: missing operand"));
    }
    let ghost all = texts(args@);
    let end = find_limiter(args);
    let mut paths: Vec<String> = Vec::new();
    let mut recursive = false;
    assert(texts(paths@) =~= Seq::<Seq<char>>::empty());
    if end < args.len() {
        let mut i: usize = end + 1;
        assert(all.subrange(end + 1, i as int) =~= Seq::<Seq<char>>::empty());
        while i < args.len()
            invariant
                end < i <= args.len(),
                all == texts(args@),
                texts(paths@) == all.subrange(end + 1, i as int),
            decreases args.len() - i,
        {
            let ghost done = texts(paths@);
            paths.push(args[i].clone());
            assert(all[i as int] == args@[i as int]@);
            assert(texts(paths@) =~= done.push(all[i as int]));
            assert(all.subrange(end + 1, i + 1) =~= all.subrange(end + 1, i as int).push(
                all[i as int],
            ));
            i = i + 1;
        }
        assert(all.subrange(end + 1, args.len() as int) =~= all.skip(end + 1));
    }
    let ghost after = texts(paths@);
    let ghost goal = scan(all, 0, end as int, false, after);
    let mut i: usize = 0;
    while i < end
        invariant
            i <= end <= args.len(),
            all == texts(args@),
            goal == scan(all, i as int, end as int, recursive, texts(paths@)),
            args.len() > 0,
            spec_parse(all) == (match goal {
                Ok(request) => if request.paths.len() == 0 {
                    Err(missing_operand_text())
                } else {
                    Ok(request)
                },
                Err(message) => Err(message),
            }),
        decreases end - i,
    {
        let ghost done = texts(paths@);
        let operand = &args[i];
        assert(all[i as int] == operand@);
        let chars = chars_of(operand.as_str());
        if is_word(operand, "-r") || is_word(operand, "--r") {
            recursive = true;
        } else if is_word(operand, "---") {
        } else if chars.len() > 1 && chars[0] == '-' {
            match check_letters(operand) {
                Some(message) => {
                    return Err(message);
                },
                None => {
                    recursive = true;
                },
            }
        } else {
            paths.push(operand.clone());
            assert(texts(paths@) =~= done.push(operand@));
        }
        i = i + 1;
    }
    if paths.len() == 0 {
        return Err(String::from_str("rm: missing operand"));
    }
    Ok(Request { recursive, paths })
}

/// Whether `rm` refuses to touch `path`: the current directory, the one
/// above it and the root, however the first two are reached.
pub open spec fn refused(path: Seq<char>) -> bool {
    path == "."@ || path == ".."@ || path == "/"@ || ends_with(path, "/."@) || ends_with(
        path,
        "/.."@,
    ) || ends_with(path, "/./"@) || ends_with(path, "/../"@)
}

/// The refusal to remove `path`.
pub open spec fn refusal_text(path: Seq<char>) -> Seq<char> {
    "rm: refusing to remove '"@ + path + "' directory"@
}

/// The complaint that `path` could not be removed, for the reason given.
pub open spec fn failure_text(path: Seq<char>, reason: Seq<char>) -> Seq<char> {
    "rm: cannot remove '"@ + path + "': "@ + reason
}

/// What the file system says of an operand, links not followed.
#[derive(Clone, Copy, Debug, PartialEq, Eq, Structural)]
pub enum Kind {
    /// There is nothing of that name.
    Missing,
    /// It is a directory.
    Directory,
    /// It is anything else.
    Other,
}

/// What to do with one operand.
#[derive(Debug, PartialEq, Eq)]
pub enum Step {
    /// Write this to standard error and go on.
    Complain(String),
    /// Remove the directory and all it holds.
    RemoveTree,
    /// Remove the file.
    RemoveFile,
}

/// The mathematical value of a [`Step`].
pub ghost enum StepView {
    Complain(Seq<char>),
    RemoveTree,
    RemoveFile,
}

impl View for Step {
    type V = StepView;

    open spec fn view(&self) -> StepView {
        match self {
            Step::Complain(message) => StepView::Complain(message@),
            Step::RemoveTree => StepView::RemoveTree,
            Step::RemoveFile => StepView::RemoveFile,
        }
    }
}

/// What to do with the operand `path` that the file system finds to be of
/// kind `kind`.
pub open spec fn spec_step(path: Seq<char>, kind: Kind, recursive: bool) -> StepView {
    if refused(path) {
        StepView::Complain(refusal_text(path))
    } else {
        match kind {
            Kind::Missing => StepView::Complain(
                failure_text(path, "No such file or directory"@),
            ),
            Kind::Directory => if recursive {
                StepView::RemoveTree
            } else {
                StepView::Complain(failure_text(path, "Is a directory"@))
            },
            Kind::Other => StepView::RemoveFile,
        }
    }
}

/// Whether `rm` refuses to touch `path`.
pub fn is_refused(path: &str) -> (refuse: bool)
    ensures
        refuse == refused(path@),
{
    let text = path.to_owned();
    let chars = chars_of(path);
    is_word(&text, ".") || is_word(&text, "..") || is_word(&text, "/") || has_suffix(
        &chars,
        &chars_of("/."),
    ) || has_suffix(&chars, &chars_of("/..")) || has_suffix(&chars, &chars_of("/./"))
        || has_suffix(&chars, &chars_of("/../"))
}

/// The complaint that `path` could not be removed, for the reason given.
pub fn failure(path: &str, reason: &str) -> (message: String)
    ensures
        message@ == failure_text(path@, reason@),
{
    let mut message = String::from_str("rm: cannot remove '");
    message.append(path);
    message.append("': ");
    message.append(reason);
    message
}

/// What to do with the operand `path`.  `kind` is what the file system
/// says of it; it is not looked at where the path is refused.
pub fn step(path: &str, kind: Kind, recursive: bool) -> (next: Step)
    ensures
        next@ == spec_step(path@, kind, recursive),
{
    if is_refused(path) {
        let mut message = String::from_str("rm: refusing to remove '");
        message.append(path);
        message.append("' directory");
        return Step::Complain(message);
    }
    match kind {
        Kind::Missing => Step::Complain(failure(path, "No such file or directory")),
        Kind::Directory => {
            if recursive {
                Step::RemoveTree
            } else {
                Step::Complain(failure(path, "Is a directory"))
            }
        },
        Kind::Other => Step::RemoveFile,
    }
}

} // verus!
