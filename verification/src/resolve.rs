//! What a sequence of nodes means: the commands it stands for.
//!
//! Resolution needs two things from outside: the values of variables, and
//! the output of the commands inside substitutions.  Both are arguments
//! here, gathered in a [`World`].  The outputs are a list; the n-th command
//! that resolution runs gets the n-th output.  Where the list is too short
//! the outcome names the command whose output is missing.

use vstd::prelude::*;
use crate::command::CommandView;
use crate::env::env_lookup;
use crate::grammar::{ParserState, spec_parse};
use crate::nodes::NodeView;
use crate::text::join_words;
use crate::tokens::{Operator, operator_text};

verus! {

/// What resolution reads from outside.
pub ghost struct World {
    /// The variables: names and values.  The first entry for a name counts.
    pub env: Seq<(Seq<char>, Seq<char>)>,
    /// The captured outputs of the commands run so far, in order.
    pub outputs: Seq<Seq<char>>,
}

/// How resolution ends.
pub ghost enum Outcome<T> {
    /// With a value, after `used` outputs have been taken.
    Done { value: T, used: nat },
    /// A construct was left open at the end of the input.
    NeedLine,
    /// The output of this command is missing.
    NeedOutput(CommandView),
    /// This operator has no meaning yet.
    Unsupported(Operator),
}

/// `s` without its last character if that is a newline.
pub open spec fn strip_newline(s: Seq<char>) -> Seq<char> {
    if s.len() > 0 && s.last() == '\n' {
        s.drop_last()
    } else {
        s
    }
}

/// A command being put together: the words so far, the word being read,
/// and the redirections so far.
pub ghost struct Draft {
    pub words: Seq<Seq<char>>,
    pub current: Seq<char>,
    pub command: CommandView,
}

impl Draft {
    /// Nothing read yet.
    pub open spec fn empty() -> Draft {
        Draft { words: Seq::empty(), current: Seq::empty(), command: CommandView::empty() }
    }

    /// The words, the one being read included unless it is empty.
    pub open spec fn all_words(self) -> Seq<Seq<char>> {
        if self.current.len() > 0 {
            self.words.push(self.current)
        } else {
            self.words
        }
    }

    /// The command: the first word is its name, the others its arguments.
    pub open spec fn finish(self) -> CommandView {
        let words = self.all_words();
        CommandView {
            name: if words.len() > 0 {
                words[0]
            } else {
                Seq::empty()
            },
            args: if words.len() > 1 {
                words.skip(1)
            } else {
                Seq::empty()
            },
            ..self.command
        }
    }

    /// The draft after white space: the word being read, if any, is done.
    pub open spec fn end_word(self) -> Draft {
        Draft { words: self.all_words(), current: Seq::empty(), ..self }
    }

    /// The draft after `text` has been read as part of a word.
    pub open spec fn extend(self, text: Seq<char>) -> Draft {
        Draft { current: self.current + text, ..self }
    }
}

/// The first position from `pos` on that holds no white space.
pub open spec fn skip_white_space(nodes: Seq<NodeView>, pos: int) -> int
    decreases nodes.len() - pos,
{
    if 0 <= pos < nodes.len() && nodes[pos] is WhiteSpace {
        skip_white_space(nodes, pos + 1)
    } else {
        pos
    }
}

/// Skipping white space never goes backwards nor beyond the end.
pub proof fn lemma_skip_white_space(nodes: Seq<NodeView>, pos: int)
    requires
        0 <= pos <= nodes.len(),
    ensures
        pos <= skip_white_space(nodes, pos) <= nodes.len(),
        skip_white_space(nodes, pos) < nodes.len() ==> !(nodes[skip_white_space(
            nodes,
            pos,
        )] is WhiteSpace),
    decreases nodes.len() - pos,
{
    if pos < nodes.len() && nodes[pos] is WhiteSpace {
        lemma_skip_white_space(nodes, pos + 1);
    }
}

/// The text that one node stands for.
pub open spec fn resolve_node(node: NodeView, world: World, used: nat) -> Outcome<Seq<char>>
    decreases node, 0nat, 0nat,
{
    match node {
        NodeView::Raw(text) => Outcome::Done { value: text, used },
        NodeView::Quoted { kind, value } => resolve_all(value, 0, Seq::empty(), world, used),
        NodeView::ParameterExpansion(name) => Outcome::Done {
            value: env_lookup(world.env, name),
            used,
        },
        NodeView::Substitution { kind, value } => resolve_substitution(
            value,
            0,
            Seq::empty(),
            world,
            used,
        ),
        NodeView::WhiteSpace(ch) => Outcome::Done { value: seq![ch], used },
        NodeView::Operator(op) => Outcome::Done { value: operator_text(op), used },
        NodeView::Delimiter => Outcome::Done { value: Seq::empty(), used },
        NodeView::EOF => Outcome::Done { value: seq!['\0'], used },
    }
}

/// `done`, then the texts of the nodes from `pos` on, one after the other.
pub open spec fn resolve_all(
    nodes: Seq<NodeView>,
    pos: int,
    done: Seq<char>,
    world: World,
    used: nat,
) -> Outcome<Seq<char>>
    decreases nodes, nodes.len() - pos, 0nat,
{
    if 0 <= pos < nodes.len() {
        match resolve_node(nodes[pos], world, used) {
            Outcome::Done { value, used } => resolve_all(nodes, pos + 1, done + value, world, used),
            stop => stop,
        }
    } else {
        Outcome::Done { value: done, used }
    }
}

/// The command that starts at `pos`, given what `draft` holds of it, and
/// the position after it.  The command ends before a `;` or a delimiter,
/// which is passed over, or at the end of the nodes.
///
/// White space ends a word.  A redirection operator takes the next node
/// that is no white space as its operand.  Any other operator that has a
/// node after it stops resolution.
pub open spec fn resolve_sequence(
    nodes: Seq<NodeView>,
    pos: int,
    draft: Draft,
    world: World,
    used: nat,
) -> Outcome<(CommandView, int)>
    decreases nodes, nodes.len() - pos, 0nat,
{
    if 0 <= pos < nodes.len() {
        match nodes[pos] {
            NodeView::Delimiter => Outcome::Done { value: (draft.finish(), pos + 1), used },
            NodeView::Operator(Operator::SemiColon) => Outcome::Done {
                value: (draft.finish(), pos + 1),
                used,
            },
            NodeView::Operator(op) => {
                let operand = skip_white_space(nodes, pos + 1);
                if pos < operand < nodes.len() {
                    match op {
                        Operator::Redirection(kind) => match resolve_node(
                            nodes[operand],
                            world,
                            used,
                        ) {
                            Outcome::Done { value, used } => resolve_sequence(
                                nodes,
                                operand + 1,
                                Draft { command: draft.command.redirected(kind, value), ..draft },
                                world,
                                used,
                            ),
                            Outcome::NeedLine => Outcome::NeedLine,
                            Outcome::NeedOutput(command) => Outcome::NeedOutput(command),
                            Outcome::Unsupported(op) => Outcome::Unsupported(op),
                        },
                        _ => Outcome::Unsupported(op),
                    }
                } else {
                    Outcome::Done { value: (draft.finish(), nodes.len() as int), used }
                }
            },
            NodeView::WhiteSpace(_) => resolve_sequence(
                nodes,
                pos + 1,
                draft.end_word(),
                world,
                used,
            ),
            node => match resolve_node(node, world, used) {
                Outcome::Done { value, used } => resolve_sequence(
                    nodes,
                    pos + 1,
                    draft.extend(value),
                    world,
                    used,
                ),
                Outcome::NeedLine => Outcome::NeedLine,
                Outcome::NeedOutput(command) => Outcome::NeedOutput(command),
                Outcome::Unsupported(op) => Outcome::Unsupported(op),
            },
        }
    } else {
        Outcome::Done { value: (draft.finish(), pos), used }
    }
}

/// The text of a substitution: each command from `pos` on is resolved and
/// run, its output loses one newline at the end, and the outputs, after
/// `results`, are joined by single spaces.
pub open spec fn resolve_substitution(
    nodes: Seq<NodeView>,
    pos: int,
    results: Seq<Seq<char>>,
    world: World,
    used: nat,
) -> Outcome<Seq<char>>
    decreases nodes, nodes.len() - pos, 1nat,
{
    if 0 <= pos < nodes.len() {
        match resolve_sequence(nodes, pos, Draft::empty(), world, used) {
            Outcome::Done { value, used } => {
                if used < world.outputs.len() {
                    let results = results.push(strip_newline(world.outputs[used as int]));
                    if pos < value.1 <= nodes.len() {
                        resolve_substitution(nodes, value.1, results, world, used + 1)
                    } else {
                        Outcome::Done { value: join_words(results, ' '), used: used + 1 }
                    }
                } else {
                    Outcome::NeedOutput(value.0)
                }
            },
            Outcome::NeedLine => Outcome::NeedLine,
            Outcome::NeedOutput(command) => Outcome::NeedOutput(command),
            Outcome::Unsupported(op) => Outcome::Unsupported(op),
        }
    } else {
        Outcome::Done { value: join_words(results, ' '), used }
    }
}

/// `done`, then the commands from `pos` on.
pub open spec fn resolve_commands(
    nodes: Seq<NodeView>,
    pos: int,
    done: Seq<CommandView>,
    world: World,
    used: nat,
) -> Outcome<Seq<CommandView>>
    decreases nodes.len() - pos,
{
    if 0 <= pos < nodes.len() {
        match resolve_sequence(nodes, pos, Draft::empty(), world, used) {
            Outcome::Done { value, used } => {
                if pos < value.1 <= nodes.len() {
                    resolve_commands(nodes, value.1, done.push(value.0), world, used)
                } else {
                    Outcome::Done { value: done.push(value.0), used }
                }
            },
            Outcome::NeedLine => Outcome::NeedLine,
            Outcome::NeedOutput(command) => Outcome::NeedOutput(command),
            Outcome::Unsupported(op) => Outcome::Unsupported(op),
        }
    } else {
        Outcome::Done { value: done, used }
    }
}

/// The name of the variable that holds the home directory.
pub open spec fn home_key() -> Seq<char> {
    seq!['H', 'O', 'M', 'E']
}

/// The commands of the line `input`, continued by `lines`.  Where a
/// construct is still open after the last of `lines`, nothing is resolved
/// and the outcome is `NeedLine`.
pub open spec fn resolve_line(input: Seq<char>, lines: Seq<Seq<char>>, world: World) -> Outcome<
    Seq<CommandView>,
> {
    let start = ParserState { text: input, context: None, lines, starved: false };
    let parsed = spec_parse(start, env_lookup(world.env, home_key()));
    if parsed.1.starved {
        Outcome::NeedLine
    } else {
        resolve_commands(parsed.0, 0, Seq::empty(), world, 0)
    }
}

} // verus!
