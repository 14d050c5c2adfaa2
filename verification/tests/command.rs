use zero_shell::command::{Command, IoStreams, OpenMode, Stream, Target, Worker};
use zero_shell::tokens::RedirectionKind;

#[test]
fn default_command_is_empty() {
    let command = Command::default();
    assert_eq!(command.name, "");
    assert!(command.args.is_empty());
    assert!(command.files.is_empty());
    assert!(command.io_streams.stdin.is_empty());
    assert!(command.io_streams.stdout.is_empty());
    assert!(command.io_streams.stderr.is_empty());
    assert_eq!(command.error, None);
}

#[test]
fn each_kind_binds_its_stream() {
    let mut command = Command::default();
    command.handle_redirection(RedirectionKind::Input, "in".to_string());
    command.handle_redirection(RedirectionKind::Output, "out".to_string());
    command.handle_redirection(RedirectionKind::Error, "err".to_string());
    assert_eq!(
        command.files,
        vec![
            Target { path: "in".to_string(), mode: OpenMode::Read },
            Target { path: "out".to_string(), mode: OpenMode::Write },
            Target { path: "err".to_string(), mode: OpenMode::Write },
        ]
    );
    assert_eq!(command.io_streams.stdin, vec![0]);
    assert_eq!(command.io_streams.stdout, vec![1]);
    assert_eq!(command.io_streams.stderr, vec![2]);
}

#[test]
fn merged_redirection_shares_one_file() {
    let mut command = Command::default();
    command.handle_redirection(RedirectionKind::OutputError, "both".to_string());
    assert_eq!(
        command.files,
        vec![Target { path: "both".to_string(), mode: OpenMode::Write }]
    );
    assert_eq!(command.io_streams.stdout, vec![0]);
    assert_eq!(command.io_streams.stderr, vec![0]);
    assert!(command.io_streams.stdin.is_empty());
}

#[test]
fn several_redirections_of_one_stream_all_stay() {
    let mut command = Command::default();
    command.handle_redirection(RedirectionKind::Output, "a".to_string());
    command.handle_redirection(RedirectionKind::Output, "b".to_string());
    assert_eq!(command.io_streams.stdout, vec![0, 1]);
}

#[test]
fn open_failure_is_kept_on_the_command() {
    let mut command = Command::default();
    command.name = "cat".to_string();
    command.handle_redirection(RedirectionKind::Input, "missing.txt".to_string());
    command.open_failed(0, "No such file or directory");
    assert_eq!(
        command.error,
        Some("shell: missing.txt: No such file or directory\n".to_string())
    );
    assert_eq!(command.name, "cat");
    assert_eq!(command.io_streams.stdin, vec![0]);
}

#[test]
fn workers_follow_the_bindings() {
    let none = IoStreams::new();
    assert_eq!(none.redirect(), Vec::<Worker>::new());

    let streams = IoStreams { stdin: vec![0, 3], stdout: vec![1], stderr: vec![2, 1] };
    assert_eq!(
        streams.redirect(),
        vec![
            Worker::FanOut { stream: Stream::Stdout, sinks: vec![1] },
            Worker::FanOut { stream: Stream::Stderr, sinks: vec![2, 1] },
            Worker::FanIn { sources: vec![0, 3] },
        ]
    );

    let input_only = IoStreams { stdin: vec![4], stdout: vec![], stderr: vec![] };
    assert_eq!(input_only.redirect(), vec![Worker::FanIn { sources: vec![4] }]);
    assert_eq!(
        IoStreams::redirect_in(vec![7]),
        Worker::FanIn { sources: vec![7] }
    );
}

#[test]
fn descriptor_numbers() {
    assert_eq!(Stream::Stdin.fileno(), 0);
    assert_eq!(Stream::Stdout.fileno(), 1);
    assert_eq!(Stream::Stderr.fileno(), 2);
}
