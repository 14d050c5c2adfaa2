//! The interpreter: from a line of input to the commands it stands for.
//!
//! An [`Interpreter`] holds what resolution needs from outside: the
//! variables, the continuation lines read so far, and the outputs captured
//! so far from the commands inside substitutions.  It never reads a line
//! and never runs a command.  [`Interpreter::parse_line`] either returns the
//! commands of the line or says, as a [`Stop`], what is missing; the caller
//! supplies it with [`Interpreter::push_line`] or
//! [`Interpreter::push_output`] and asks again.

use vstd::prelude::*;
use vstd::string::*;
use crate::command::{Command, CommandView, command_views};
use crate::nodes::{Node, NodeView, lemma_quoted_view, lemma_substitution_view, views};
use crate::parser::Parser;
use crate::resolve::{
    Draft,
    Outcome,
    World,
    home_key,
    lemma_skip_white_space,
    resolve_all,
    resolve_commands,
    resolve_line,
    resolve_node,
    resolve_sequence,
    resolve_substitution,
    skip_white_space,
    strip_newline,
};
use crate::env::{env_lookup, env_view, find};
use crate::text::{chars_of, join, string_of_char, texts};
use crate::tokens::Operator;

verus! {

/// Why a line could not be turned into commands.
#[derive(Debug, PartialEq, Eq)]
pub enum Stop {
    /// A construct is still open at the end of the input: one more line is
    /// needed.
    NeedLine,
    /// The output of this command is needed: it is to be run with its
    /// standard output captured, in addition to its own redirections.
    NeedOutput(Command),
    /// The line uses an operator that has no meaning yet.
    Unsupported(Operator),
}

/// The outcome that a stop stands for.
pub open spec fn stop_outcome<T>(stop: Stop) -> Outcome<T> {
    match stop {
        Stop::NeedLine => Outcome::NeedLine,
        Stop::NeedOutput(command) => Outcome::NeedOutput(command@),
        Stop::Unsupported(op) => Outcome::Unsupported(op),
    }
}

/// The outcome that a text result stands for, `used` outputs having been
/// taken.
pub open spec fn text_outcome(result: Result<String, Stop>, used: usize) -> Outcome<Seq<char>> {
    match result {
        Ok(text) => Outcome::Done { value: text@, used: used as nat },
        Err(stop) => stop_outcome(stop),
    }
}

/// The outcome that a command result stands for, resolution having reached
/// `pos` and taken `used` outputs.
pub open spec fn command_outcome(result: Result<Command, Stop>, pos: usize, used: usize) -> Outcome<
    (CommandView, int),
> {
    match result {
        Ok(command) => Outcome::Done { value: (command@, pos as int), used: used as nat },
        Err(stop) => stop_outcome(stop),
    }
}

/// `text` without its last character if that is a newline.
pub fn strip_trailing_newline(text: &str) -> (out: String)
    ensures
        out@ == strip_newline(text@),
{
    let chars = chars_of(text);
    let n = chars.len();
    let keep = if n > 0 && chars[n - 1] == '\n' {
        n - 1
    } else {
        n
    };
    let mut out = String::new();
    let mut i: usize = 0;
    while i < keep
        invariant
            i <= keep <= chars.len(),
            out@ == chars@.take(i as int),
        decreases keep - i,
    {
        out.push(chars[i]);
        i = i + 1;
        assert(chars@.take(i as int) == chars@.take(i - 1).push(chars@[i - 1]));
    }
    assert(chars@.take(n as int) == chars@);
    assert(chars@.take(n - 1) == chars@.drop_last());
    out
}

/// Turns lines of input into commands.
pub struct Interpreter {
    env: Vec<(String, String)>,
    lines: Vec<String>,
    outputs: Vec<String>,
}

impl Interpreter {
    /// The variables and the captured outputs.
    pub closed spec fn world(&self) -> World {
        World { env: env_view(self.env@), outputs: texts(self.outputs@) }
    }

    /// The continuation lines.
    pub closed spec fn lines(&self) -> Seq<Seq<char>> {
        texts(self.lines@)
    }

    /// An interpreter with the variables `env`, given as names and values;
    /// the first entry for a name counts.  It holds no continuation line
    /// and no output.
    pub fn new(env: Vec<(String, String)>) -> (interpreter: Interpreter)
        ensures
            interpreter.world() == (World { env: env_view(env@), outputs: Seq::empty() }),
            interpreter.lines() == Seq::<Seq<char>>::empty(),
    {
        let interpreter = Interpreter { env, lines: Vec::new(), outputs: Vec::new() };
        assert(interpreter.world().outputs =~= Seq::empty());
        assert(interpreter.lines() =~= Seq::empty());
        interpreter
    }

    /// Adds a continuation line, after those already held.
    pub fn push_line(&mut self, line: String)
        ensures
            final(self).lines() == old(self).lines().push(line@),
            final(self).world() == old(self).world(),
    {
        self.lines.push(line);
        assert(self.lines() =~= old(self).lines().push(line@));
    }

    /// Adds the captured output of the command that was asked for, after
    /// those already held.
    pub fn push_output(&mut self, output: String)
        ensures
            final(self).lines() == old(self).lines(),
            final(self).world() == (World {
                outputs: old(self).world().outputs.push(output@),
                ..old(self).world()
            }),
    {
        self.outputs.push(output);
        assert(self.world().outputs =~= old(self).world().outputs.push(output@));
    }

    /// Forgets the continuation lines and the outputs, to start on a new
    /// line of input.
    pub fn reset(&mut self)
        ensures
            final(self).lines() == Seq::<Seq<char>>::empty(),
            final(self).world() == (World { outputs: Seq::empty(), ..old(self).world() }),
    {
        self.lines = Vec::new();
        self.outputs = Vec::new();
        assert(self.world().outputs =~= Seq::empty());
        assert(self.lines() =~= Seq::empty());
    }

    /// The value of the variable `key`, empty if it is not set.
    pub fn envar(&self, key: &str) -> (value: String)
        ensures
            value@ == env_lookup(self.world().env, key@),
    {
        match find(&self.env, key) {
            Some(value) => value,
            None => String::new(),
        }
    }

    /// The captured output of `command`: the next of the outputs held, of
    /// which `used` have been taken.  Where none is left, the command comes
    /// back as the one whose output is needed.
    pub fn exec(&self, command: Command, used: &mut usize) -> (result: Result<String, Stop>)
        ensures
            *old(used) < self.world().outputs.len() ==> result is Ok && result->Ok_0@
                == self.world().outputs[*old(used) as int] && *final(used) == *old(used) + 1,
            *old(used) >= self.world().outputs.len() ==> result == Err::<String, Stop>(
                Stop::NeedOutput(command),
            ) && *final(used) == *old(used),
    {
        if *used < self.outputs.len() {
            let output = self.outputs[*used].clone();
            *used = *used + 1;
            Ok(output)
        } else {
            Err(Stop::NeedOutput(command))
        }
    }

    /// The text that `node` stands for.
    pub fn node_to_string(&self, node: &Node, used: &mut usize) -> (result: Result<String, Stop>)
        ensures
            text_outcome(result, *final(used)) == resolve_node(
                node@,
                self.world(),
                *old(used) as nat,
            ),
        decreases node, 0nat,
    {
        match node {
            Node::Raw(text) => Ok(text.clone()),
            Node::Quoted { kind, value } => {
                proof {
                    lemma_quoted_view(*kind, *value);
                }
                self.concat(value, used)
            },
            Node::ParameterExpansion(name) => Ok(self.envar(name.as_str())),
            Node::Substitution { kind, value } => {
                proof {
                    lemma_substitution_view(*kind, *value);
                }
                self.parse_substitution(value, used)
            },
            Node::WhiteSpace(ch) => Ok(string_of_char(*ch)),
            Node::Operator(op) => Ok(op.text()),
            Node::Delimiter => Ok(String::new()),
            Node::EOF => Ok(string_of_char('\0')),
        }
    }

    /// The texts of `nodes`, one after the other.
    fn concat(&self, nodes: &Vec<Node>, used: &mut usize) -> (result: Result<String, Stop>)
        ensures
            text_outcome(result, *final(used)) == resolve_all(
                views(nodes@),
                0,
                Seq::empty(),
                self.world(),
                *old(used) as nat,
            ),
        decreases nodes, 0nat,
    {
        let mut out = String::new();
        let mut i: usize = 0;
        let ghost all = views(nodes@);
        let ghost world = self.world();
        let ghost goal = resolve_all(all, 0, Seq::empty(), world, *used as nat);
        while i < nodes.len()
            invariant
                i <= nodes.len(),
                all == views(nodes@),
                world == self.world(),
                goal == resolve_all(all, i as int, out@, world, *used as nat),
                goal == resolve_all(all, 0, Seq::empty(), world, *old(used) as nat),
            decreases nodes.len() - i,
        {
            assert(all[i as int] == nodes@[i as int]@);
            match self.node_to_string(&nodes[i], used) {
                Ok(text) => {
                    out.append(text.as_str());
                },
                Err(stop) => {
                    return Err(stop);
                },
            }
            i = i + 1;
        }
        Ok(out)
    }

    /// The text of the substitution that holds `nodes`.
    pub fn parse_substitution(&self, nodes: &Vec<Node>, used: &mut usize) -> (result: Result<
        String,
        Stop,
    >)
        ensures
            text_outcome(result, *final(used)) == resolve_substitution(
                views(nodes@),
                0,
                Seq::empty(),
                self.world(),
                *old(used) as nat,
            ),
        decreases nodes, 1nat,
    {
        let mut results: Vec<String> = Vec::new();
        let mut pos: usize = 0;
        let ghost all = views(nodes@);
        let ghost world = self.world();
        let ghost goal = resolve_substitution(all, 0, Seq::empty(), world, *used as nat);
        assert(texts(results@) =~= Seq::<Seq<char>>::empty());
        while pos < nodes.len()
            invariant
                pos <= nodes.len(),
                all == views(nodes@),
                world == self.world(),
                goal == resolve_substitution(all, pos as int, texts(results@), world, *used as nat),
                goal == resolve_substitution(all, 0, Seq::empty(), world, *old(used) as nat),
            decreases nodes.len() - pos,
        {
            let ghost before = pos;
            let ghost done = texts(results@);
            proof {
                lemma_sequence_advances(all, pos as int, Draft::empty(), world, *used as nat);
            }
            let command = match self.parse_sequence(nodes, &mut pos, used) {
                Ok(command) => command,
                Err(stop) => {
                    return Err(stop);
                },
            };
            let output = match self.exec(command, used) {
                Ok(output) => output,
                Err(stop) => {
                    return Err(stop);
                },
            };
            let stripped = strip_trailing_newline(output.as_str());
            results.push(stripped);
            assert(texts(results@) =~= done.push(stripped@));
        }
        Ok(join(&results, ' '))
    }

    /// The command that starts at `pos`.  On return `pos` is the position
    /// after it.  From a position beyond the nodes the command is empty.
    pub fn parse_sequence(&self, nodes: &Vec<Node>, pos: &mut usize, used: &mut usize) -> (result:
        Result<Command, Stop>)
        ensures
            command_outcome(result, *final(pos), *final(used)) == resolve_sequence(
                views(nodes@),
                *old(pos) as int,
                Draft::empty(),
                self.world(),
                *old(used) as nat,
            ),
            result is Ok && *old(pos) <= nodes.len() ==> *final(pos) <= nodes.len(),
        decreases nodes, 0nat,
    {
        let mut words: Vec<String> = Vec::new();
        let mut current = String::new();
        let mut command = Command::default();
        if *pos > nodes.len() {
            assert(command@ == Draft::empty().finish());
            return Ok(command);
        }
        let ghost all = views(nodes@);
        let ghost world = self.world();
        let ghost goal = resolve_sequence(all, *pos as int, Draft::empty(), world, *used as nat);
        assert(texts(words@) =~= Seq::<Seq<char>>::empty());
        loop
            invariant_except_break
                goal == resolve_sequence(
                    all,
                    *pos as int,
                    Draft { words: texts(words@), current: current@, command: command@ },
                    world,
                    *used as nat,
                ),
            invariant
                *pos <= nodes.len(),
                all == views(nodes@),
                world == self.world(),
                command@.name == Seq::<char>::empty(),
                command@.args == Seq::<Seq<char>>::empty(),
                goal == resolve_sequence(
                    all,
                    *old(pos) as int,
                    Draft::empty(),
                    world,
                    *old(used) as nat,
                ),
            ensures
                command@.name == Seq::<char>::empty(),
                command@.args == Seq::<Seq<char>>::empty(),
                goal == (Outcome::Done {
                    value: (
                        (Draft {
                            words: texts(words@),
                            current: current@,
                            command: command@,
                        }).finish(),
                        *pos as int,
                    ),
                    used: *used as nat,
                }),
            decreases nodes.len() - *pos,
        {
            if *pos >= nodes.len() {
                break ;
            }
            let ghost draft = Draft { words: texts(words@), current: current@, command: command@ };
            let node = &nodes[*pos];
            assert(all[*pos as int] == node@);
            match node {
                Node::Delimiter => {
                    *pos = *pos + 1;
                    break ;
                },
                Node::Operator(op) => {
                    match op {
                        Operator::SemiColon => {
                            *pos = *pos + 1;
                            break ;
                        },
                        _ => {},
                    }
                    let ghost from = *pos;
                    *pos = *pos + 1;
                    proof {
                        lemma_skip_white_space(all, from + 1);
                    }
                    while *pos < nodes.len() && is_white_space(&nodes[*pos])
                        invariant
                            from < *pos <= nodes.len(),
                            all == views(nodes@),
                            skip_white_space(all, from + 1) == skip_white_space(all, *pos as int),
                        decreases nodes.len() - *pos,
                    {
                        assert(all[*pos as int] == nodes@[*pos as int]@);
                        *pos = *pos + 1;
                    }
                    assert(*pos == skip_white_space(all, from + 1)) by {
                        if *pos < nodes.len() {
                            assert(all[*pos as int] == nodes@[*pos as int]@);
                        }
                    }
                    if *pos < nodes.len() {
                        match op {
                            Operator::Redirection(kind) => {
                                let operand = &nodes[*pos];
                                assert(all[*pos as int] == operand@);
                                let target = match self.node_to_string(operand, used) {
                                    Ok(target) => target,
                                    Err(stop) => {
                                        return Err(stop);
                                    },
                                };
                                command.handle_redirection(*kind, target);
                                *pos = *pos + 1;
                            },
                            _ => {
                                return Err(Stop::Unsupported(*op));
                            },
                        }
                    } else {
                        break ;
                    }
                },
                Node::WhiteSpace(_) => {
                    if !current.as_str().is_empty() {
                        words.push(current);
                        current = String::new();
                        assert(texts(words@) =~= draft.all_words());
                    }
                    assert(current@ =~= Seq::<char>::empty());
                    *pos = *pos + 1;
                },
                _ => {
                    match self.node_to_string(node, used) {
                        Ok(text) => {
                            current.append(text.as_str());
                        },
                        Err(stop) => {
                            return Err(stop);
                        },
                    }
                    *pos = *pos + 1;
                },
            }
        }
        let ghost draft = Draft { words: texts(words@), current: current@, command: command@ };
        if !current.as_str().is_empty() {
            words.push(current);
        }
        assert(texts(words@) =~= draft.all_words());
        if words.len() > 0 {
            let ghost full = words@;
            let name = words.remove(0);
            assert(texts(full)[0] == name@);
            assert forall|i: int| 0 <= i < words@.len() implies words@[i]@ == draft.all_words().skip(
                1,
            )[i] by {
                assert(words@[i] == full[i + 1]);
                assert(texts(full)[i + 1] == full[i + 1]@);
            }
            command.name = name;
            command.args = words;
            assert(command@.args =~= draft.all_words().skip(1));
            assert(command@.files =~= draft.command.files);
        } else {
            assert(command@.files =~= draft.command.files);
        }
        assert(command@.args =~= draft.finish().args);
        assert(command@ == draft.finish());
        Ok(command)
    }

    /// The commands of the line `input`, continued by the lines held.
    pub fn parse_line(&self, input: &str) -> (result: Result<Vec<Command>, Stop>)
        ensures
            match resolve_line(input@, self.lines(), self.world()) {
                Outcome::Done { value, used } => result is Ok && command_views(result->Ok_0@)
                    == value,
                stop => result is Err && stop_outcome::<Seq<CommandView>>(result->Err_0) == stop,
            },
    {
        let home = self.envar(string_of_home().as_str());
        let mut parser = Parser::with_reader(input, self.lines.clone()).with_home(home.as_str());
        let nodes = parser.nodes();
        if parser.starved() {
            return Err(Stop::NeedLine);
        }
        let mut commands: Vec<Command> = Vec::new();
        let mut pos: usize = 0;
        let mut used: usize = 0;
        let ghost all = views(nodes@);
        let ghost world = self.world();
        let ghost goal = resolve_commands(all, 0, Seq::empty(), world, 0);
        assert(command_views(commands@) =~= Seq::<CommandView>::empty());
        while pos < nodes.len()
            invariant
                pos <= nodes.len(),
                all == views(nodes@),
                world == self.world(),
                goal == resolve_commands(
                    all,
                    pos as int,
                    command_views(commands@),
                    world,
                    used as nat,
                ),
                goal == resolve_commands(all, 0, Seq::empty(), world, 0),
                resolve_line(input@, self.lines(), world) == goal,
            decreases nodes.len() - pos,
        {
            let ghost done = command_views(commands@);
            proof {
                lemma_sequence_advances(all, pos as int, Draft::empty(), world, used as nat);
            }
            match self.parse_sequence(&nodes, &mut pos, &mut used) {
                Ok(command) => {
                    commands.push(command);
                    assert(command_views(commands@) =~= done.push(command@));
                },
                Err(stop) => {
                    return Err(stop);
                },
            }
        }
        Ok(commands)
    }
}

/// Whether `node` is white space between words.
fn is_white_space(node: &Node) -> (white: bool)
    ensures
        white == (node@ is WhiteSpace),
{
    match node {
        Node::WhiteSpace(_) => true,
        _ => false,
    }
}

/// The name of the variable that holds the home directory.
fn string_of_home() -> (key: String)
    ensures
        key@ == home_key(),
{
    let mut key = String::new();
    key.push('H');
    key.push('O');
    key.push('M');
    key.push('E');
    assert(key@ =~= home_key());
    key
}

/// A command read from a position inside the nodes ends after that
/// position and not beyond the end.
pub proof fn lemma_sequence_advances(
    nodes: Seq<NodeView>,
    pos: int,
    draft: Draft,
    world: World,
    used: nat,
)
    requires
        0 <= pos < nodes.len(),
    ensures
        resolve_sequence(nodes, pos, draft, world, used) matches Outcome::Done { value, .. } ==> pos
            < value.1 <= nodes.len(),
    decreases nodes.len() - pos,
{
    match nodes[pos] {
        NodeView::Delimiter => {},
        NodeView::Operator(Operator::SemiColon) => {},
        NodeView::Operator(op) => {
            let operand = skip_white_space(nodes, pos + 1);
            lemma_skip_white_space(nodes, pos + 1);
            if pos < operand < nodes.len() {
                match op {
                    Operator::Redirection(kind) => {
                        match resolve_node(nodes[operand], world, used) {
                            Outcome::Done { value, used } => {
                                let next = Draft {
                                    command: draft.command.redirected(kind, value),
                                    ..draft
                                };
                                if operand + 1 < nodes.len() {
                                    lemma_sequence_advances(nodes, operand + 1, next, world, used);
                                }
                            },
                            _ => {},
                        }
                    },
                    _ => {},
                }
            }
        },
        NodeView::WhiteSpace(_) => {
            if pos + 1 < nodes.len() {
                lemma_sequence_advances(nodes, pos + 1, draft.end_word(), world, used);
            }
        },
        node => {
            match resolve_node(node, world, used) {
                Outcome::Done { value, used } => {
                    if pos + 1 < nodes.len() {
                        lemma_sequence_advances(nodes, pos + 1, draft.extend(value), world, used);
                    }
                },
                _ => {},
            }
        },
    }
}

} // verus!
