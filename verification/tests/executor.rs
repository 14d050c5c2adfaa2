use zero_shell::executor::{
    child_steps, exit_status, lookup, not_found, run_command, step, Action, Builtin, ChildStep,
    Event, State, FAILURE, NOT_FOUND, SUCCESS,
};

#[test]
fn table_of_builtins() {
    let table = [
        ("echo", Builtin::Echo),
        ("cp", Builtin::Cp),
        ("mv", Builtin::Mv),
        ("cd", Builtin::Cd),
        ("rm", Builtin::Rm),
        ("pwd", Builtin::Pwd),
        ("clear", Builtin::Clear),
        ("mkdir", Builtin::Mkdir),
        ("cat", Builtin::Cat),
        ("ls", Builtin::Ls),
        ("exit", Builtin::Exit),
    ];
    for (name, builtin) in table {
        assert_eq!(lookup(name), Some(builtin));
    }
    assert_eq!(lookup("frobnicate"), None);
    assert_eq!(lookup(""), None);
    assert_eq!(lookup("Echo"), None);
    assert_eq!(lookup("ls "), None);
}

#[test]
fn builtins_that_run_in_the_parent() {
    for builtin in [Builtin::Cd, Builtin::Pwd, Builtin::Clear, Builtin::Exit] {
        assert!(builtin.in_parent());
    }
    for builtin in [
        Builtin::Echo,
        Builtin::Cp,
        Builtin::Mv,
        Builtin::Rm,
        Builtin::Mkdir,
        Builtin::Cat,
        Builtin::Ls,
    ] {
        assert!(!builtin.in_parent());
    }
}

#[test]
fn unknown_command_is_status_127_with_its_name() {
    let (status, message) = not_found("frobnicate");
    assert_eq!(status, 127);
    assert_eq!(status, NOT_FOUND);
    assert_eq!(message, "Command 'frobnicate' not found\n");
    assert!(message.contains("frobnicate"));
}

#[test]
fn exit_status_is_the_second_byte() {
    assert_eq!(exit_status(0), 0);
    assert_eq!(exit_status(127 << 8), 127);
    assert_eq!(exit_status(1 << 8), 1);
    assert_eq!(exit_status((3 << 8) | 0x7f), 3);
    assert_eq!(exit_status(9), 0);
}

#[test]
fn cd_runs_in_the_parent() {
    assert_eq!(
        step("cd", State::Parsed, Event::Opened),
        (State::BuiltinInParent, Action::RunInParent(Builtin::Cd))
    );
    assert_eq!(
        step("pwd", State::Parsed, Event::Opened),
        (State::BuiltinInParent, Action::RunInParent(Builtin::Pwd))
    );
    assert_eq!(
        step("cd", State::BuiltinInParent, Event::Returned(1)),
        (State::Exited(1), Action::Report(1))
    );
}

#[test]
fn other_commands_are_forked() {
    assert_eq!(
        step("ls", State::Parsed, Event::Opened),
        (State::RedirectionsOpened, Action::Fork)
    );
    assert_eq!(
        step("frobnicate", State::Parsed, Event::Opened),
        (State::RedirectionsOpened, Action::Fork)
    );
    assert_eq!(
        step("ls", State::RedirectionsOpened, Event::Forked(42)),
        (State::ForkedChildRunning(42), Action::Wait(42))
    );
    assert_eq!(
        step("ls", State::RedirectionsOpened, Event::Forked(0)),
        (State::ForkedChildRunning(0), Action::RunInChild(Some(Builtin::Ls)))
    );
    assert_eq!(
        step("frobnicate", State::RedirectionsOpened, Event::Forked(0)),
        (State::ForkedChildRunning(0), Action::RunInChild(None))
    );
    assert_eq!(
        step("ls", State::ForkedChildRunning(42), Event::Waited(42, 2 << 8)),
        (State::Exited(2), Action::Report(2))
    );
}

#[test]
fn failures_of_the_system_are_status_1() {
    assert_eq!(
        step("ls", State::Parsed, Event::OpenFailed),
        (State::Exited(1), Action::Report(1))
    );
    assert_eq!(
        step("ls", State::RedirectionsOpened, Event::Forked(-1)),
        (State::Exited(1), Action::Report(1))
    );
    assert_eq!(
        step("ls", State::ForkedChildRunning(42), Event::Waited(-1, 0)),
        (State::Exited(1), Action::Report(1))
    );
    assert_eq!(
        step("ls", State::Parsed, Event::Forked(3)),
        (State::Exited(1), Action::Report(1))
    );
    assert_eq!(FAILURE, 1);
    assert_eq!(SUCCESS, 0);
}

#[test]
fn an_exited_command_stays_exited() {
    assert_eq!(
        step("ls", State::Exited(5), Event::Opened),
        (State::Exited(5), Action::Report(5))
    );
}

#[test]
fn run_command_follows_the_steps() {
    assert_eq!(run_command("cd", true, 0, 7, 7, 0), 0);
    assert_eq!(run_command("cd", true, 1, 7, 7, 0), 1);
    assert_eq!(run_command("cd", false, 0, 7, 7, 0), 1);
    assert_eq!(run_command("ls", true, 9, 7, 7, 2 << 8), 2);
    assert_eq!(run_command("ls", true, 9, -1, 7, 0), 1);
    assert_eq!(run_command("ls", true, 9, 7, -1, 0), 1);
    assert_eq!(run_command("frobnicate", true, 0, 7, 7, 127 << 8), 127);
}

#[test]
fn the_child_joins_its_workers_before_it_exits() {
    assert_eq!(
        child_steps(Some(Builtin::Echo)),
        vec![
            ChildStep::Redirect,
            ChildStep::Run(Builtin::Echo),
            ChildStep::CloseStreams,
            ChildStep::JoinWorkers,
            ChildStep::Exit,
        ]
    );
    assert_eq!(
        child_steps(None),
        vec![
            ChildStep::Redirect,
            ChildStep::NotFound,
            ChildStep::CloseStreams,
            ChildStep::JoinWorkers,
            ChildStep::Exit,
        ]
    );
}
