//! `cd`: where to go, and what to remember of where one was.
//!
//! The working directory is kept in the variables `PWD` and `OLDPWD`.  A
//! path is simplified by its text alone: `.` and empty components are
//! dropped, and `..` takes back the component before it.

use vstd::prelude::*;
use vstd::string::*;
use crate::env::{env_find, env_or, env_set, env_view, get_or, lemma_set_then_find};
use crate::text::{char_views, chars_of, join, join_words, split, split_on, string_of, texts};

verus! {

/// The components of a path among the pieces between its slashes: those
/// that are neither empty nor `.`.
pub open spec fn components(pieces: Seq<Seq<char>>) -> Seq<Seq<char>>
    decreases pieces.len(),
{
    if pieces.len() == 0 {
        Seq::empty()
    } else {
        let before = components(pieces.drop_last());
        let piece = pieces.last();
        if piece.len() == 0 || piece == seq!['.'] {
            before
        } else {
            before.push(piece)
        }
    }
}

/// The components that are left when each `..` has taken back the
/// component before it; a `..` with nothing before it is dropped.
pub open spec fn collapse(parts: Seq<Seq<char>>) -> Seq<Seq<char>>
    decreases parts.len(),
{
    if parts.len() == 0 {
        Seq::empty()
    } else {
        let before = collapse(parts.drop_last());
        if parts.last() == seq!['.', '.'] {
            if before.len() > 0 {
                before.drop_last()
            } else {
                before
            }
        } else {
            before.push(parts.last())
        }
    }
}

/// Whether a path starts at the root.
pub open spec fn is_absolute(path: Seq<char>) -> bool {
    path.len() > 0 && path[0] == '/'
}

/// The path made of `parts`, from the root if `absolute`.
pub open spec fn rooted(absolute: bool, parts: Seq<Seq<char>>) -> Seq<char> {
    if absolute {
        seq!['/'] + join_words(parts, '/')
    } else {
        join_words(parts, '/')
    }
}

/// The components of `path`.
pub open spec fn path_components(path: Seq<char>) -> Seq<Seq<char>> {
    components(split_on(path, '/'))
}

/// `path` in its simplest form.
pub open spec fn simplified(path: Seq<char>) -> Seq<char> {
    rooted(is_absolute(path), collapse(path_components(path)))
}

/// The directory that holds `path`, in its simplest form: `path` without
/// its last component.
pub open spec fn simplified_parent(path: Seq<char>) -> Seq<char> {
    let parts = path_components(path);
    rooted(
        is_absolute(path),
        collapse(
            if parts.len() > 0 {
                parts.drop_last()
            } else {
                parts
            },
        ),
    )
}

/// The components of `path`.
pub fn components_of(path: &Vec<char>) -> (parts: Vec<String>)
    ensures
        texts(parts@) == path_components(path@),
{
    let pieces = split(path, '/');
    let ghost all = char_views(pieces@);
    let mut parts: Vec<String> = Vec::new();
    let mut i: usize = 0;
    assert(all.take(0) =~= Seq::<Seq<char>>::empty());
    assert(texts(parts@) =~= Seq::<Seq<char>>::empty());
    while i < pieces.len()
        invariant
            i <= pieces.len(),
            all == char_views(pieces@),
            texts(parts@) == components(all.take(i as int)),
        decreases pieces.len() - i,
    {
        let ghost done = texts(parts@);
        let piece = &pieces[i];
        assert(all.take(i + 1).drop_last() =~= all.take(i as int));
        assert(all.take(i + 1).last() == piece@);
        let dot = piece.len() == 1 && piece[0] == '.';
        assert(dot == (piece@ == seq!['.'])) by {
            if dot {
                assert(piece@ =~= seq!['.']);
            }
        }
        if piece.len() > 0 && !dot {
            let part = string_of(piece);
            parts.push(part);
            assert(texts(parts@) =~= done.push(piece@));
        }
        i = i + 1;
    }
    assert(all.take(i as int) =~= all);
    parts
}

/// Computes [`collapse`].
fn collapse_parts(parts: Vec<String>) -> (kept: Vec<String>)
    ensures
        texts(kept@) == collapse(texts(parts@)),
{
    let ghost all = texts(parts@);
    let mut kept: Vec<String> = Vec::new();
    let mut i: usize = 0;
    assert(all.take(0) =~= Seq::<Seq<char>>::empty());
    assert(texts(kept@) =~= Seq::<Seq<char>>::empty());
    while i < parts.len()
        invariant
            i <= parts.len(),
            all == texts(parts@),
            texts(kept@) == collapse(all.take(i as int)),
        decreases parts.len() - i,
    {
        let ghost done = texts(kept@);
        assert(all.take(i + 1).drop_last() =~= all.take(i as int));
        assert(all.take(i + 1).last() == parts@[i as int]@);
        let part = chars_of(parts[i].as_str());
        let up = part.len() == 2 && part[0] == '.' && part[1] == '.';
        assert(up == (part@ == seq!['.', '.'])) by {
            if up {
                assert(part@ =~= seq!['.', '.']);
            }
        }
        if up {
            if kept.len() > 0 {
                kept.pop();
                assert(texts(kept@) =~= done.drop_last());
            }
        } else {
            kept.push(parts[i].clone());
            assert(texts(kept@) =~= done.push(parts@[i as int]@));
        }
        i = i + 1;
    }
    assert(all.take(i as int) =~= all);
    kept
}

/// The path made of `parts`, from the root if `absolute`.
fn rooted_path(absolute: bool, parts: &Vec<String>) -> (path: String)
    ensures
        path@ == rooted(absolute, texts(parts@)),
{
    let joined = join(parts, '/');
    if absolute {
        let mut path = String::new();
        path.push('/');
        path.append(joined.as_str());
        path
    } else {
        joined
    }
}

/// `path` in its simplest form.
pub fn simple_path(path: &str) -> (simple: String)
    ensures
        simple@ == simplified(path@),
{
    let chars = chars_of(path);
    let absolute = chars.len() > 0 && chars[0] == '/';
    let parts = collapse_parts(components_of(&chars));
    rooted_path(absolute, &parts)
}

/// The directory that holds `path`, in its simplest form.
pub fn parent_path(path: &str) -> (parent: String)
    ensures
        parent@ == simplified_parent(path@),
{
    let chars = chars_of(path);
    let absolute = chars.len() > 0 && chars[0] == '/';
    let mut parts = components_of(&chars);
    let ghost all = texts(parts@);
    if parts.len() > 0 {
        parts.pop();
        assert(texts(parts@) =~= all.drop_last());
    }
    let parts = collapse_parts(parts);
    rooted_path(absolute, &parts)
}

/// A change of directory that `cd` has settled on.
#[derive(Debug, PartialEq, Eq)]
pub struct Change {
    /// The directory to go to, in its simplest form.
    pub path: String,
    /// The operand as it was typed, for diagnostics.
    pub input: String,
    /// The directory that is left behind.
    pub previous: String,
    /// What to print once the change is made, if anything.
    pub announce: Option<String>,
}

/// The mathematical value of a [`Change`].
pub ghost struct ChangeView {
    pub path: Seq<char>,
    pub input: Seq<char>,
    pub previous: Seq<char>,
    pub announce: Option<Seq<char>>,
}

impl View for Change {
    type V = ChangeView;

    open spec fn view(&self) -> ChangeView {
        ChangeView {
            path: self.path@,
            input: self.input@,
            previous: self.previous@,
            announce: match self.announce {
                Some(text) => Some(text@),
                None => None,
            },
        }
    }
}

/// The complaint about more than one operand.
pub open spec fn too_many_text() -> Seq<char> {
    "0-shell: cd: too many arguments"@
}

/// The path that `operand` names, seen from the directory `pwd`.
pub open spec fn seen_from(pwd: Seq<char>, operand: Seq<char>) -> Seq<char> {
    if is_absolute(operand) || pwd.len() == 0 {
        operand
    } else {
        pwd + seq!['/'] + operand
    }
}

/// What `cd` settles on for `args`, or its complaint.
///
/// With no operand, or `--`, it goes home; with `-`, back to where it was
/// before and says where that is; with `..`, to the directory that holds the
/// current one; with any other operand, to the path named, seen from the
/// current directory.  The current directory is `PWD`, or the root if that
/// is not set; home is `HOME`, or the root.
pub open spec fn spec_target(args: Seq<Seq<char>>, env: Seq<(Seq<char>, Seq<char>)>) -> Result<
    ChangeView,
    Seq<char>,
> {
    if args.len() > 1 {
        Err(too_many_text())
    } else {
        let pwd = env_or(env, "PWD"@, "/"@);
        let operand = if args.len() == 0 {
            Seq::empty()
        } else {
            args[0]
        };
        if operand == "-"@ {
            let back = env_or(env, "OLDPWD"@, pwd);
            Ok(
                ChangeView {
                    path: simplified(back),
                    input: operand,
                    previous: pwd,
                    announce: Some(back),
                },
            )
        } else if operand == ".."@ {
            Ok(
                ChangeView {
                    path: simplified_parent(pwd),
                    input: operand,
                    previous: pwd,
                    announce: None,
                },
            )
        } else if operand.len() == 0 || operand == "--"@ {
            Ok(
                ChangeView {
                    path: simplified(env_or(env, "HOME"@, "/"@)),
                    input: operand,
                    previous: pwd,
                    announce: None,
                },
            )
        } else {
            Ok(
                ChangeView {
                    path: simplified(seen_from(pwd, operand)),
                    input: operand,
                    previous: pwd,
                    announce: None,
                },
            )
        }
    }
}

/// The view of what `cd` settles on.
pub open spec fn target_view(result: Result<Change, String>) -> Result<ChangeView, Seq<char>> {
    match result {
        Ok(change) => Ok(change@),
        Err(message) => Err(message@),
    }
}

/// Whether `text` is the word `word`.
fn is_word(text: &String, word: &str) -> (same: bool)
    ensures
        same == (text@ == word@),
{
    let other = word.to_owned();
    *text == other
}

/// What `cd` settles on for `args` with the variables `env`.
pub fn target(args: &Vec<String>, env: &Vec<(String, String)>) -> (result: Result<Change, String>)
    ensures
        target_view(result) == spec_target(texts(args@), env_view(env@)),
{
    if args.len() > 1 {
        return Err(String::from_str("0-shell: cd: too many arguments"));
    }
    let pwd = get_or(env, "PWD", "/");
    let operand = if args.len() == 0 {
        String::new()
    } else {
        assert(texts(args@)[0] == args@[0]@);
        args[0].clone()
    };
    assert(args.len() == 0 ==> operand@ =~= Seq::<char>::empty());
    if is_word(&operand, "-") {
        let back = get_or(env, "OLDPWD", pwd.as_str());
        let path = simple_path(back.as_str());
        Ok(Change { path, input: operand, previous: pwd, announce: Some(back) })
    } else if is_word(&operand, "..") {
        let path = parent_path(pwd.as_str());
        Ok(Change { path, input: operand, previous: pwd, announce: None })
    } else if operand.as_str().is_empty() || is_word(&operand, "--") {
        let home = get_or(env, "HOME", "/");
        let path = simple_path(home.as_str());
        Ok(Change { path, input: operand, previous: pwd, announce: None })
    } else {
        let chars = chars_of(operand.as_str());
        let absolute = chars.len() > 0 && chars[0] == '/';
        let full = if absolute || pwd.as_str().is_empty() {
            operand.clone()
        } else {
            let mut full = pwd.clone();
            full.push('/');
            full.append(operand.as_str());
            assert(full@ =~= pwd@ + seq!['/'] + operand@);
            full
        };
        assert(absolute == is_absolute(operand@));
        assert(full@ == seen_from(pwd@, operand@));
        let path = simple_path(full.as_str());
        Ok(Change { path, input: operand, previous: pwd, announce: None })
    }
}

/// The complaint about a directory that does not exist.
pub fn missing(input: &str) -> (message: String)
    ensures
        message@ == "0-shell: cd: "@ + input@ + ": No such file or directory"@,
{
    let mut message = String::from_str("0-shell: cd: ");
    message.append(input);
    message.append(": No such file or directory");
    message
}

/// The complaint about a directory that could not be entered, for the
/// reason given.
pub fn failed(input: &str, reason: &str) -> (message: String)
    ensures
        message@ == "0-shell: cd: "@ + input@ + ": "@ + reason@,
{
    let mut message = String::from_str("0-shell: cd: ");
    message.append(input);
    message.append(": ");
    message.append(reason);
    message
}

/// The variables after the change `change` has been made: `OLDPWD` is the
/// directory left behind, `PWD` the new one.
pub open spec fn committed(env: Seq<(Seq<char>, Seq<char>)>, change: ChangeView) -> Seq<
    (Seq<char>, Seq<char>),
> {
    env_set(env_set(env, "OLDPWD"@, change.previous), "PWD"@, change.path)
}

/// Records in `env` that the change `change` has been made.
pub fn commit(env: &mut Vec<(String, String)>, change: &Change)
    ensures
        env_view(final(env)@) == committed(env_view(old(env)@), change@),
{
    crate::env::set(env, "OLDPWD", change.previous.clone());
    crate::env::set(env, "PWD", change.path.clone());
}

/// After a change of directory, `PWD` names the new directory and `OLDPWD`
/// the one that was left.
pub proof fn lemma_commit_sets_pwd(env: Seq<(Seq<char>, Seq<char>)>, change: ChangeView)
    ensures
        env_find(committed(env, change), "PWD"@) == Some(change.path),
        env_find(committed(env, change), "OLDPWD"@) == Some(change.previous),
{
    reveal_strlit("PWD");
    reveal_strlit("OLDPWD");
    let first = env_set(env, "OLDPWD"@, change.previous);
    lemma_set_then_find(env, "OLDPWD"@, change.previous, "PWD"@);
    lemma_set_then_find(first, "PWD"@, change.path, "OLDPWD"@);
    assert("PWD"@.len() != "OLDPWD"@.len());
}

} // verus!
