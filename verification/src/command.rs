//! The executable unit: a program name, its arguments and its redirections.
//!
//! A [`Command`] lists the files that must be opened for it and, for each
//! of the three standard streams, which of those files the stream is bound
//! to.  A file bound to two streams is opened once and shared.  A stream
//! bound to several files on the output side sends every byte to each of
//! them; several files on the input side are read one after the other.
//!
//! Nothing is opened here.  The plan is carried out by whoever runs the
//! command, who reports a failure with [`Command::open_failed`].

use vstd::prelude::*;
use vstd::string::*;
use crate::tokens::RedirectionKind;

verus! {

/// How a redirection target is opened.
#[derive(Clone, Copy, Debug, PartialEq, Eq, Structural)]
pub enum OpenMode {
    /// For reading; the file must exist.
    Read,
    /// For writing; the file is created if missing and emptied.
    Write,
}

/// One of the three standard streams of a process.
#[derive(Clone, Copy, Debug, PartialEq, Eq, Structural)]
pub enum Stream {
    Stdin,
    Stdout,
    Stderr,
}

/// The descriptor number of a stream.
pub open spec fn stream_fileno(stream: Stream) -> int {
    match stream {
        Stream::Stdin => 0,
        Stream::Stdout => 1,
        Stream::Stderr => 2,
    }
}

/// `libc::STDIN_FILENO`, the descriptor of standard input, is 0.
#[verifier::external_body]
fn stdin_fileno() -> (fd: i32)
    ensures
        fd == 0,
{
    libc::STDIN_FILENO
}

/// `libc::STDOUT_FILENO`, the descriptor of standard output, is 1.
#[verifier::external_body]
fn stdout_fileno() -> (fd: i32)
    ensures
        fd == 1,
{
    libc::STDOUT_FILENO
}

/// `libc::STDERR_FILENO`, the descriptor of standard error, is 2.
#[verifier::external_body]
fn stderr_fileno() -> (fd: i32)
    ensures
        fd == 2,
{
    libc::STDERR_FILENO
}

impl Stream {
    /// The descriptor number of this stream.
    pub fn fileno(self) -> (fd: i32)
        ensures
            fd == stream_fileno(self),
    {
        match self {
            Stream::Stdin => stdin_fileno(),
            Stream::Stdout => stdout_fileno(),
            Stream::Stderr => stderr_fileno(),
        }
    }
}

/// A file that a command needs opened.
#[derive(Clone, Debug, PartialEq, Eq)]
pub struct Target {
    pub path: String,
    pub mode: OpenMode,
}

/// The mathematical value of a [`Target`].
pub ghost struct TargetView {
    pub path: Seq<char>,
    pub mode: OpenMode,
}

impl View for Target {
    type V = TargetView;

    open spec fn view(&self) -> TargetView {
        TargetView { path: self.path@, mode: self.mode }
    }
}

/// The bindings of the three standard streams.  Each entry is the index of
/// a file in the command's list of targets.
#[derive(Clone, Debug, PartialEq, Eq)]
pub struct IoStreams {
    /// The sources of standard input, read in this order.
    pub stdin: Vec<usize>,
    /// The sinks of standard output; each receives every byte.
    pub stdout: Vec<usize>,
    /// The sinks of standard error; each receives every byte.
    pub stderr: Vec<usize>,
}

/// What runs beside a command to move the bytes of one redirected stream.
#[derive(Clone, Debug, PartialEq, Eq)]
pub enum Worker {
    /// Copies everything written to `stream` to each of `sinks`.
    FanOut { stream: Stream, sinks: Vec<usize> },
    /// Feeds standard input with the contents of `sources`, one after the
    /// other.
    FanIn { sources: Vec<usize> },
}

/// The mathematical value of a [`Worker`].
pub ghost enum WorkerView {
    FanOut { stream: Stream, sinks: Seq<usize> },
    FanIn { sources: Seq<usize> },
}

impl View for Worker {
    type V = WorkerView;

    open spec fn view(&self) -> WorkerView {
        match self {
            Worker::FanOut { stream, sinks } => WorkerView::FanOut {
                stream: *stream,
                sinks: sinks@,
            },
            Worker::FanIn { sources } => WorkerView::FanIn { sources: sources@ },
        }
    }
}

/// The workers that the bindings `stdin`, `stdout` and `stderr` call for:
/// one for each output stream that is bound to a file, standard output
/// first, and one for standard input if it is bound to a file.
pub open spec fn workers_for(stdin: Seq<usize>, stdout: Seq<usize>, stderr: Seq<usize>) -> Seq<
    WorkerView,
> {
    let out = if stdout.len() > 0 {
        seq![WorkerView::FanOut { stream: Stream::Stdout, sinks: stdout }]
    } else {
        Seq::empty()
    };
    let err = if stderr.len() > 0 {
        seq![WorkerView::FanOut { stream: Stream::Stderr, sinks: stderr }]
    } else {
        Seq::empty()
    };
    let inp = if stdin.len() > 0 {
        seq![WorkerView::FanIn { sources: stdin }]
    } else {
        Seq::empty()
    };
    out + err + inp
}

/// The views of a list of workers.
pub open spec fn worker_views(workers: Seq<Worker>) -> Seq<WorkerView> {
    Seq::new(workers.len(), |i: int| workers[i]@)
}

impl IoStreams {
    /// Streams with no binding.
    pub fn new() -> (streams: IoStreams)
        ensures
            streams.stdin@.len() == 0,
            streams.stdout@.len() == 0,
            streams.stderr@.len() == 0,
    {
        IoStreams { stdin: Vec::new(), stdout: Vec::new(), stderr: Vec::new() }
    }

    /// The workers to start before the command runs, in the order in which
    /// they are started.  All of them must have finished before the command
    /// counts as complete.
    pub fn redirect(self) -> (workers: Vec<Worker>)
        ensures
            worker_views(workers@) == workers_for(self.stdin@, self.stdout@, self.stderr@),
    {
        let IoStreams { stdin, stdout, stderr } = self;
        let mut workers: Vec<Worker> = Vec::new();
        if stdout.len() > 0 {
            workers.push(Worker::FanOut { stream: Stream::Stdout, sinks: stdout });
        }
        if stderr.len() > 0 {
            workers.push(Worker::FanOut { stream: Stream::Stderr, sinks: stderr });
        }
        if stdin.len() > 0 {
            workers.push(IoStreams::redirect_in(stdin));
        }
        assert(worker_views(workers@) =~= workers_for(self.stdin@, self.stdout@, self.stderr@));
        workers
    }

    /// The worker that feeds standard input from `stdin`.
    pub fn redirect_in(stdin: Vec<usize>) -> (worker: Worker)
        ensures
            worker@ == (WorkerView::FanIn { sources: stdin@ }),
    {
        Worker::FanIn { sources: stdin }
    }
}

/// The executable unit.
#[derive(Clone, Debug, PartialEq, Eq)]
pub struct Command {
    /// The name of the program.
    pub name: String,
    /// Its arguments, in order.
    pub args: Vec<String>,
    /// The files to open before the command runs, in order.
    pub files: Vec<Target>,
    /// Which of `files` each standard stream is bound to.
    pub io_streams: IoStreams,
    /// Why the command must not run: set when one of `files` could not be
    /// opened.
    pub error: Option<String>,
}

/// The mathematical value of a [`Command`].
pub ghost struct CommandView {
    pub name: Seq<char>,
    pub args: Seq<Seq<char>>,
    pub files: Seq<TargetView>,
    pub stdin: Seq<usize>,
    pub stdout: Seq<usize>,
    pub stderr: Seq<usize>,
    pub error: Option<Seq<char>>,
}

impl View for Command {
    type V = CommandView;

    open spec fn view(&self) -> CommandView {
        CommandView {
            name: self.name@,
            args: Seq::new(self.args@.len(), |i: int| self.args@[i]@),
            files: Seq::new(self.files@.len(), |i: int| self.files@[i]@),
            stdin: self.io_streams.stdin@,
            stdout: self.io_streams.stdout@,
            stderr: self.io_streams.stderr@,
            error: match self.error {
                Some(message) => Some(message@),
                None => None,
            },
        }
    }
}

/// The views of a list of commands.
pub open spec fn command_views(commands: Seq<Command>) -> Seq<CommandView> {
    Seq::new(commands.len(), |i: int| commands[i]@)
}

/// The mode in which the target of a redirection is opened.
pub open spec fn open_mode(kind: RedirectionKind) -> OpenMode {
    match kind {
        RedirectionKind::Input => OpenMode::Read,
        _ => OpenMode::Write,
    }
}

impl CommandView {
    /// The command with nothing set.
    pub open spec fn empty() -> CommandView {
        CommandView {
            name: Seq::empty(),
            args: Seq::empty(),
            files: Seq::empty(),
            stdin: Seq::empty(),
            stdout: Seq::empty(),
            stderr: Seq::empty(),
            error: None,
        }
    }

    /// Every binding names one of the files, input is bound to files opened
    /// for reading, and output to files opened for writing.
    pub open spec fn well_formed(self) -> bool {
        &&& forall|i: int|
            0 <= i < self.stdin.len() ==> (#[trigger] self.stdin[i]) < self.files.len()
                && self.files[self.stdin[i] as int].mode == OpenMode::Read
        &&& forall|i: int|
            0 <= i < self.stdout.len() ==> (#[trigger] self.stdout[i]) < self.files.len()
                && self.files[self.stdout[i] as int].mode == OpenMode::Write
        &&& forall|i: int|
            0 <= i < self.stderr.len() ==> (#[trigger] self.stderr[i]) < self.files.len()
                && self.files[self.stderr[i] as int].mode == OpenMode::Write
    }

    /// The command with one more redirection: `operand` is added to the
    /// files, to be opened as `kind` asks, and bound to the stream or
    /// streams that `kind` names.  For `OutputError` the one file is bound to
    /// standard error and to standard output.
    pub open spec fn redirected(self, kind: RedirectionKind, operand: Seq<char>) -> CommandView {
        let index = self.files.len() as usize;
        let files = self.files.push(TargetView { path: operand, mode: open_mode(kind) });
        match kind {
            RedirectionKind::Input => CommandView {
                files,
                stdin: self.stdin.push(index),
                ..self
            },
            RedirectionKind::Output => CommandView {
                files,
                stdout: self.stdout.push(index),
                ..self
            },
            RedirectionKind::Error => CommandView {
                files,
                stderr: self.stderr.push(index),
                ..self
            },
            RedirectionKind::OutputError => CommandView {
                files,
                stderr: self.stderr.push(index),
                stdout: self.stdout.push(index),
                ..self
            },
        }
    }
}

/// The message for a redirection target that could not be opened.
pub open spec fn open_error_text(path: Seq<char>, reason: Seq<char>) -> Seq<char> {
    seq!['s', 'h', 'e', 'l', 'l', ':', ' '] + path + seq![':', ' '] + reason + seq!['\n']
}

impl Default for Command {
    fn default() -> (command: Command)
        ensures
            command@ == CommandView::empty(),
    {
        let command = Command {
            name: String::new(),
            args: Vec::new(),
            files: Vec::new(),
            io_streams: IoStreams::new(),
            error: None,
        };
        assert(command@.args =~= Seq::empty());
        assert(command@.files =~= Seq::empty());
        assert(command@.stdin =~= Seq::empty());
        assert(command@.stdout =~= Seq::empty());
        assert(command@.stderr =~= Seq::empty());
        command
    }
}

impl Command {
    /// Adds the redirection of kind `kind` to the file `operand`.
    pub fn handle_redirection(&mut self, kind: RedirectionKind, operand: String)
        ensures
            final(self)@ == old(self)@.redirected(kind, operand@),
            old(self)@.well_formed() ==> final(self)@.well_formed(),
    {
        let ghost before = self@;
        let index = self.files.len();
        let mode = match kind {
            RedirectionKind::Input => OpenMode::Read,
            _ => OpenMode::Write,
        };
        self.files.push(Target { path: operand, mode });
        match kind {
            RedirectionKind::Input => {
                self.io_streams.stdin.push(index);
            },
            RedirectionKind::Output => {
                self.io_streams.stdout.push(index);
            },
            RedirectionKind::Error => {
                self.io_streams.stderr.push(index);
            },
            RedirectionKind::OutputError => {
                self.io_streams.stderr.push(index);
                self.io_streams.stdout.push(index);
            },
        }
        proof {
            let after = before.redirected(kind, operand@);
            assert(self@.files =~= after.files);
            assert(self@.args =~= after.args);
            assert(self@.stdin =~= after.stdin);
            assert(self@.stdout =~= after.stdout);
            assert(self@.stderr =~= after.stderr);
        }
    }

    /// Records that the file at `index` could not be opened, for the reason
    /// given.  The command must then not run; its status is 1.
    pub fn open_failed(&mut self, index: usize, reason: &str)
        requires
            index < old(self).files.len(),
        ensures
            final(self)@ == (CommandView {
                error: Some(open_error_text(old(self)@.files[index as int].path, reason@)),
                ..old(self)@
            }),
    {
        let ghost before = self@;
        let mut message = String::new();
        message.push('s');
        message.push('h');
        message.push('e');
        message.push('l');
        message.push('l');
        message.push(':');
        message.push(' ');
        message.append(self.files[index].path.as_str());
        message.push(':');
        message.push(' ');
        message.append(reason);
        message.push('\n');
        assert(message@ =~= open_error_text(before.files[index as int].path, reason@));
        self.error = Some(message);
        proof {
            assert(self@.args =~= before.args);
            assert(self@.files =~= before.files);
        }
    }
}

} // verus!
