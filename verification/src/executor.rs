//! How a command is run: which builtin it names, in which process the
//! builtin runs, and what follows from each thing the operating system
//! reports.
//!
//! Nothing here forks, waits or opens a file.  [`step`] takes the state of
//! one command and what has just happened to it, and returns the next state
//! and what to do next.  Whoever runs the command performs the action and
//! comes back with the next event.
//!
//! A command passes through these states:
//! `Parsed`, then `RedirectionsOpened`, then `BuiltinInParent` or
//! `ForkedChildRunning`, then `Exited` with its status.  There is no way
//! back and nothing is tried twice.

use vstd::prelude::*;
use vstd::string::*;

verus! {

/// The commands that the shell implements itself.
#[derive(Clone, Copy, Debug, PartialEq, Eq, Structural)]
pub enum Builtin {
    Echo,
    Cp,
    Mv,
    Cd,
    Rm,
    Pwd,
    Clear,
    Mkdir,
    Cat,
    Ls,
    Exit,
}

/// The status of a command that succeeded.
pub const SUCCESS: i32 = 0;

/// The status of a command that failed, and of one that could not be
/// started.
pub const FAILURE: i32 = 1;

/// The status of a command whose name is not known.
pub const NOT_FOUND: i32 = 127;

/// The builtin that `name` names, if any.
pub open spec fn builtin_of(name: Seq<char>) -> Option<Builtin> {
    if name == "echo"@ {
        Some(Builtin::Echo)
    } else if name == "cp"@ {
        Some(Builtin::Cp)
    } else if name == "mv"@ {
        Some(Builtin::Mv)
    } else if name == "cd"@ {
        Some(Builtin::Cd)
    } else if name == "rm"@ {
        Some(Builtin::Rm)
    } else if name == "pwd"@ {
        Some(Builtin::Pwd)
    } else if name == "clear"@ {
        Some(Builtin::Clear)
    } else if name == "mkdir"@ {
        Some(Builtin::Mkdir)
    } else if name == "cat"@ {
        Some(Builtin::Cat)
    } else if name == "ls"@ {
        Some(Builtin::Ls)
    } else if name == "exit"@ {
        Some(Builtin::Exit)
    } else {
        None
    }
}

/// Whether a builtin runs in the shell's own process.  Those that change
/// or report the working directory must: a child cannot hand such a change
/// back.  `clear` and `exit` do too.
pub open spec fn runs_in_parent(builtin: Builtin) -> bool {
    builtin == Builtin::Cd || builtin == Builtin::Pwd || builtin == Builtin::Clear || builtin
        == Builtin::Exit
}

/// Whether `name` is the word `word`.
fn is_word(name: &String, word: &str) -> (same: bool)
    ensures
        same == (name@ == word@),
{
    let other = word.to_owned();
    *name == other
}

/// Looks `name` up in the table of builtins.
pub fn lookup(name: &str) -> (found: Option<Builtin>)
    ensures
        found == builtin_of(name@),
{
    let name = name.to_owned();
    if is_word(&name, "echo") {
        Some(Builtin::Echo)
    } else if is_word(&name, "cp") {
        Some(Builtin::Cp)
    } else if is_word(&name, "mv") {
        Some(Builtin::Mv)
    } else if is_word(&name, "cd") {
        Some(Builtin::Cd)
    } else if is_word(&name, "rm") {
        Some(Builtin::Rm)
    } else if is_word(&name, "pwd") {
        Some(Builtin::Pwd)
    } else if is_word(&name, "clear") {
        Some(Builtin::Clear)
    } else if is_word(&name, "mkdir") {
        Some(Builtin::Mkdir)
    } else if is_word(&name, "cat") {
        Some(Builtin::Cat)
    } else if is_word(&name, "ls") {
        Some(Builtin::Ls)
    } else if is_word(&name, "exit") {
        Some(Builtin::Exit)
    } else {
        None
    }
}

impl Builtin {
    /// Whether this builtin runs in the shell's own process.
    pub fn in_parent(self) -> (parent: bool)
        ensures
            parent == runs_in_parent(self),
    {
        match self {
            Builtin::Cd => true,
            Builtin::Pwd => true,
            Builtin::Clear => true,
            Builtin::Exit => true,
            _ => false,
        }
    }
}

/// The diagnostic for a name that is not in the table.
pub open spec fn not_found_text(name: Seq<char>) -> Seq<char> {
    "Command '"@ + name + "' not found\n"@
}

/// What running a name that is not in the table comes to: the status 127
/// and a diagnostic for standard error that holds the name.
pub fn not_found(name: &str) -> (outcome: (i32, String))
    ensures
        outcome.0 == NOT_FOUND,
        outcome.1@ == not_found_text(name@),
        outcome.1@.subrange(9, 9 + name@.len() as int) == name@,
{
    let mut message = String::from_str("Command '");
    message.append(name);
    message.append("' not found\n");
    proof {
        reveal_strlit("Command '");
        assert(message@.subrange(9, 9 + name@.len() as int) =~= name@);
    }
    (NOT_FOUND, message)
}

/// `libc::WEXITSTATUS` takes the exit status of a child out of the status
/// that `waitpid` stored: the second lowest byte.
#[verifier::external_body]
fn wexitstatus(status: i32) -> (code: i32)
    ensures
        code == (status >> 8) & 0xff,
{
    libc::WEXITSTATUS(status)
}

/// The exit status held in a status that `waitpid` stored.
pub fn exit_status(status: i32) -> (code: i32)
    ensures
        code == (status >> 8) & 0xff,
        0 <= code <= 255,
{
    let code = wexitstatus(status);
    assert(0 <= (status >> 8) & 0xff <= 255) by (bit_vector);
    code
}

/// Where a command stands.
#[derive(Clone, Copy, Debug, PartialEq, Eq, Structural)]
pub enum State {
    /// Nothing has been done for it yet.
    Parsed,
    /// Its redirection targets are open and it is about to be forked.
    RedirectionsOpened,
    /// A builtin is running for it in the shell's own process.
    BuiltinInParent,
    /// A child with this process id is running it.
    ForkedChildRunning(i32),
    /// It is over, with this status.
    Exited(i32),
}

/// What has happened to a command.
#[derive(Clone, Copy, Debug, PartialEq, Eq, Structural)]
pub enum Event {
    /// Every redirection target was opened.
    Opened,
    /// A redirection target could not be opened.
    OpenFailed,
    /// The builtin that ran in the shell's own process returned this status.
    Returned(i32),
    /// `fork` returned this number: -1 on failure, 0 in the child, the
    /// child's process id in the parent.
    Forked(i32),
    /// `waitpid` returned the first number and stored the second.
    Waited(i32, i32),
}

/// What to do for a command next.
#[derive(Clone, Copy, Debug, PartialEq, Eq, Structural)]
pub enum Action {
    /// Run this builtin in the shell's own process.
    RunInParent(Builtin),
    /// Fork.
    Fork,
    /// This is the child: run the command here as [`child_steps`] says and
    /// exit.  `None` stands for a name that is not in the table.
    RunInChild(Option<Builtin>),
    /// Wait for the child with this process id.
    Wait(i32),
    /// Nothing: the command is over with this status.
    Report(i32),
}

/// The state and the action that follow `state` when `event` happens to the
/// command named `name`.
pub open spec fn spec_step(name: Seq<char>, state: State, event: Event) -> (State, Action) {
    match (state, event) {
        (State::Parsed, Event::Opened) => match builtin_of(name) {
            Some(builtin) if runs_in_parent(builtin) => (
                State::BuiltinInParent,
                Action::RunInParent(builtin),
            ),
            _ => (State::RedirectionsOpened, Action::Fork),
        },
        (State::Parsed, Event::OpenFailed) => (State::Exited(FAILURE), Action::Report(FAILURE)),
        (State::BuiltinInParent, Event::Returned(status)) => (
            State::Exited(status),
            Action::Report(status),
        ),
        (State::RedirectionsOpened, Event::Forked(pid)) => if pid == -1 {
            (State::Exited(FAILURE), Action::Report(FAILURE))
        } else if pid == 0 {
            (State::ForkedChildRunning(0), Action::RunInChild(builtin_of(name)))
        } else {
            (State::ForkedChildRunning(pid), Action::Wait(pid))
        },
        (State::ForkedChildRunning(pid), Event::Waited(waited, status)) => if waited != pid {
            (State::Exited(FAILURE), Action::Report(FAILURE))
        } else {
            let code = (status >> 8) & 0xff;
            (State::Exited(code), Action::Report(code))
        },
        (State::Exited(status), _) => (State::Exited(status), Action::Report(status)),
        (state, _) => (State::Exited(FAILURE), Action::Report(FAILURE)),
    }
}

/// The state and the action that follow `state` when `event` happens to the
/// command named `name`.  An event that cannot happen in `state` ends the
/// command with status 1.
pub fn step(name: &str, state: State, event: Event) -> (next: (State, Action))
    ensures
        next == spec_step(name@, state, event),
{
    match state {
        State::Parsed => match event {
            Event::Opened => {
                match lookup(name) {
                    Some(builtin) => {
                        if builtin.in_parent() {
                            return (State::BuiltinInParent, Action::RunInParent(builtin));
                        }
                    },
                    None => {},
                }
                (State::RedirectionsOpened, Action::Fork)
            },
            Event::OpenFailed => (State::Exited(FAILURE), Action::Report(FAILURE)),
            _ => (State::Exited(FAILURE), Action::Report(FAILURE)),
        },
        State::BuiltinInParent => match event {
            Event::Returned(status) => (State::Exited(status), Action::Report(status)),
            _ => (State::Exited(FAILURE), Action::Report(FAILURE)),
        },
        State::RedirectionsOpened => match event {
            Event::Forked(pid) => {
                if pid == -1 {
                    (State::Exited(FAILURE), Action::Report(FAILURE))
                } else if pid == 0 {
                    (State::ForkedChildRunning(0), Action::RunInChild(lookup(name)))
                } else {
                    (State::ForkedChildRunning(pid), Action::Wait(pid))
                }
            },
            _ => (State::Exited(FAILURE), Action::Report(FAILURE)),
        },
        State::ForkedChildRunning(pid) => match event {
            Event::Waited(waited, status) => {
                if waited != pid {
                    (State::Exited(FAILURE), Action::Report(FAILURE))
                } else {
                    let code = exit_status(status);
                    (State::Exited(code), Action::Report(code))
                }
            },
            _ => (State::Exited(FAILURE), Action::Report(FAILURE)),
        },
        State::Exited(status) => (State::Exited(status), Action::Report(status)),
    }
}

/// How far a command has come.
pub open spec fn progress(state: State) -> nat {
    match state {
        State::Parsed => 0,
        State::RedirectionsOpened => 1,
        State::BuiltinInParent => 1,
        State::ForkedChildRunning(_) => 2,
        State::Exited(_) => 3,
    }
}

/// A command only moves forward, and it is over exactly when its status is
/// reported: every step takes a command that is not over to a later state,
/// leaves one that is over as it is, and reports a status if and only if
/// the command is over with that status.
pub proof fn lemma_step_moves_forward(name: Seq<char>, state: State, event: Event)
    ensures
        !(state is Exited) ==> progress(spec_step(name, state, event).0) > progress(state),
        state is Exited ==> spec_step(name, state, event).0 == state,
        forall|code: i32|
            spec_step(name, state, event).0 == State::Exited(code) <==> spec_step(
                name,
                state,
                event,
            ).1 == Action::Report(code),
{
}

/// What the child does, one thing after the other.
#[derive(Clone, Copy, Debug, PartialEq, Eq, Structural)]
pub enum ChildStep {
    /// Start the workers of the redirections and bind the standard streams
    /// to them.
    Redirect,
    /// Run this builtin and keep its status.
    Run(Builtin),
    /// Write the diagnostic for an unknown name to standard error and keep
    /// the status 127.
    NotFound,
    /// Close the three standard streams, so that the workers see the end of
    /// what was written.
    CloseStreams,
    /// Wait until every worker has finished.
    JoinWorkers,
    /// Exit with the status kept.
    Exit,
}

/// The steps of the child for the command that names `builtin`.
pub open spec fn spec_child_steps(builtin: Option<Builtin>) -> Seq<ChildStep> {
    seq![
        ChildStep::Redirect,
        match builtin {
            Some(builtin) => ChildStep::Run(builtin),
            None => ChildStep::NotFound,
        },
        ChildStep::CloseStreams,
        ChildStep::JoinWorkers,
        ChildStep::Exit,
    ]
}

/// The steps of the child for the command that names `builtin`: the
/// redirections are in place before the command runs, and every worker has
/// finished before the child exits.
pub fn child_steps(builtin: Option<Builtin>) -> (steps: Vec<ChildStep>)
    ensures
        steps@ == spec_child_steps(builtin),
{
    let mut steps: Vec<ChildStep> = Vec::new();
    steps.push(ChildStep::Redirect);
    match builtin {
        Some(builtin) => {
            steps.push(ChildStep::Run(builtin));
        },
        None => {
            steps.push(ChildStep::NotFound);
        },
    }
    steps.push(ChildStep::CloseStreams);
    steps.push(ChildStep::JoinWorkers);
    steps.push(ChildStep::Exit);
    assert(steps@ =~= spec_child_steps(builtin));
    steps
}

/// In the child the redirections are in place before the command runs, the
/// streams are closed after it has run, and every worker has finished
/// before the child exits: the exit is the last step and the wait for the
/// workers the one before it.
pub proof fn lemma_child_joins_before_exit(builtin: Option<Builtin>)
    ensures
        ({
            let steps = spec_child_steps(builtin);
            &&& steps[0] == ChildStep::Redirect
            &&& steps[1] is Run || steps[1] is NotFound
            &&& steps[2] == ChildStep::CloseStreams
            &&& steps[steps.len() - 2] == ChildStep::JoinWorkers
            &&& steps.last() == ChildStep::Exit
            &&& forall|i: int| 0 <= i < steps.len() - 1 ==> steps[i] != ChildStep::Exit
        }),
{
}

/// The whole of what happens to a command in the shell's own process, as
/// one function of what the operating system reports: whether the targets
/// could be opened, what `fork` returned, what `waitpid` returned and
/// stored, and what a builtin run in the parent returned.
pub open spec fn spec_run_command(
    name: Seq<char>,
    opened: bool,
    returned: i32,
    forked: i32,
    waited: i32,
    status: i32,
) -> i32 {
    if !opened {
        FAILURE
    } else if builtin_of(name) matches Some(builtin) && runs_in_parent(builtin) {
        returned
    } else if forked == -1 {
        FAILURE
    } else if waited != forked {
        FAILURE
    } else {
        (status >> 8) & 0xff
    }
}

/// The status of a command that runs in the shell's own process or in a
/// child of it, given what the operating system reported on the way.  This
/// is [`step`] followed to the end, for the parent.
pub fn run_command(
    name: &str,
    opened: bool,
    returned: i32,
    forked: i32,
    waited: i32,
    status: i32,
) -> (code: i32)
    requires
        forked != 0,
    ensures
        code == spec_run_command(name@, opened, returned, forked, waited, status),
{
    let first = step(name, State::Parsed, if opened {
        Event::Opened
    } else {
        Event::OpenFailed
    });
    let second = match first.1 {
        Action::RunInParent(_) => step(name, first.0, Event::Returned(returned)),
        Action::Fork => step(name, first.0, Event::Forked(forked)),
        _ => first,
    };
    let third = match second.1 {
        Action::Wait(_) => step(name, second.0, Event::Waited(waited, status)),
        _ => second,
    };
    match third.1 {
        Action::Report(code) => code,
        _ => FAILURE,
    }
}

} // verus!
