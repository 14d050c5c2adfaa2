//! What holds of parsing and resolution taken together.

use vstd::prelude::*;
use crate::grammar::{
    ParserState,
    is_raw,
    lemma_get_raw_progress,
    lemma_next_progress,
    raw_run,
    spec_get_quoted,
    spec_get_sequence,
    spec_next,
};
use crate::nodes::NodeView;
use crate::command::CommandView;
use crate::resolve::{
    Draft,
    Outcome,
    World,
    lemma_skip_white_space,
    resolve_all,
    resolve_node,
    resolve_sequence,
    skip_white_space,
};
use crate::tokens::{Operator, RedirectionKind};
use crate::tokenizer::{first_token, first_width, starts_doubled};
use crate::tokens::{Quote, Token, token_text};

verus! {

/// What is read inside a quote or a substitution does not change the
/// context outside it: after a node, the context is what it was before.
pub proof fn lemma_context_is_restored(st: ParserState, home: Seq<char>)
    ensures
        spec_next(st, home).1.context == st.context,
{
    lemma_next_progress(st, home);
}

/// How many characters of `s` stand before its first single quote.
pub open spec fn literal_len(s: Seq<char>) -> nat
    decreases s.len(),
{
    if s.len() > 0 && s[0] != '\'' {
        1 + literal_len(s.skip(1))
    } else {
        0
    }
}

/// Whether every node of `nodes` is literal text.
pub open spec fn all_raw(nodes: Seq<NodeView>) -> bool {
    forall|i: int| 0 <= i < nodes.len() ==> #[trigger] nodes[i] is Raw
}

/// The texts of the literal nodes of `nodes`, one after the other.
pub open spec fn raw_text(nodes: Seq<NodeView>) -> Seq<char>
    decreases nodes.len(),
{
    if nodes.len() == 0 {
        Seq::empty()
    } else {
        (match nodes[0] {
            NodeView::Raw(text) => text,
            _ => Seq::empty(),
        }) + raw_text(nodes.skip(1))
    }
}

/// The first single quote of a text comes after a stretch without one.
proof fn lemma_literal_len_skip(s: Seq<char>, n: int)
    requires
        0 <= n <= s.len(),
        forall|i: int| 0 <= i < n ==> s[i] != '\'',
    ensures
        literal_len(s) == n + literal_len(s.skip(n)),
        literal_len(s) <= s.len(),
    decreases s.len(),
{
    if n == 0 {
        assert(s.skip(0) == s);
        if s.len() > 0 && s[0] != '\'' {
            lemma_literal_len_skip(s.skip(1), 0);
        }
    } else {
        let rest = s.skip(1);
        assert forall|i: int| 0 <= i < n - 1 implies rest[i] != '\'' by {
            assert(rest[i] == s[i + 1]);
        }
        lemma_literal_len_skip(rest, n - 1);
        assert(rest.skip(n - 1) == s.skip(n));
    }
}

/// The characters of a literal run have no special meaning.
proof fn lemma_raw_run(s: Seq<char>)
    ensures
        raw_run(s) <= s.len(),
        forall|i: int| 0 <= i < raw_run(s) ==> is_raw(#[trigger] s[i]),
    decreases s.len(),
{
    if s.len() > 0 && is_raw(s[0]) {
        let rest = s.skip(1);
        lemma_raw_run(rest);
        assert forall|i: int| 0 <= i < raw_run(s) implies is_raw(#[trigger] s[i]) by {
            if i > 0 {
                assert(rest[i - 1] == s[i]);
            }
        }
    }
}

/// Inside single quotes nothing has a special meaning.  Where the text at
/// hand holds the closing quote, what stands before it is read as literal
/// text and nothing else, character for character, and reading goes on
/// after the quote.
pub proof fn lemma_single_quotes_are_literal(st: ParserState, home: Seq<char>)
    requires
        st.context == Some(Token::Quote(Quote::Single)),
        literal_len(st.text) < st.text.len(),
    ensures
        ({
            let read = spec_get_sequence(st, Token::Quote(Quote::Single), home);
            &&& all_raw(read.0)
            &&& raw_text(read.0) == st.text.take(literal_len(st.text) as int)
            &&& read.1 == st.advance(literal_len(st.text) as int + 1)
        }),
    decreases st.text.len(),
{
    let closer = Token::Quote(Quote::Single);
    let text = st.text;
    if text[0] == '\'' {
        assert(!starts_doubled(text));
        assert(text.take(0) =~= Seq::<char>::empty());
    } else {
        let w = first_width(text);
        let token = first_token(text);
        let st1 = st.skip_token();
        let k = raw_run(st1.text) as int;
        lemma_raw_run(st1.text);
        lemma_get_raw_progress(st1, token_text(token));
        let r = spec_next(st, home);
        let node_text = token_text(token) + st1.text.take(k);
        assert(r.0 == Some(NodeView::Raw(node_text)));
        assert(r.1 == st.advance(w + k)) by {
            assert(text.skip(w).skip(k) == text.skip(w + k));
        }
        assert(token_text(token) == text.take(w));
        assert(node_text == text.take(w + k)) by {
            assert(text.take(w) + text.skip(w).take(k) =~= text.take(w + k));
        }
        assert forall|i: int| 0 <= i < w + k implies text[i] != '\'' by {
            if i >= w {
                assert(st1.text[i - w] == text[i]);
                assert(is_raw(st1.text[i - w]));
            }
        }
        lemma_literal_len_skip(text, w + k);
        let next = r.1;
        assert(next.text == text.skip(w + k));
        lemma_single_quotes_are_literal(next, home);
        let rest = spec_get_sequence(next, closer, home);
        let read = spec_get_sequence(st, closer, home);
        assert(read == (seq![NodeView::Raw(node_text)] + rest.0, rest.1));
        let n = literal_len(next.text) as int;
        assert(read.0[0] == NodeView::Raw(node_text));
        assert(read.0.skip(1) =~= rest.0);
        assert forall|i: int| 0 <= i < read.0.len() implies #[trigger] read.0[i] is Raw by {
            if i > 0 {
                assert(read.0[i] == rest.0[i - 1]);
            }
        }
        assert(text.take(w + k) + text.skip(w + k).take(n) =~= text.take(w + k + n));
        assert(next.advance(n + 1) == st.advance(w + k + n + 1)) by {
            assert(text.skip(w + k).skip(n + 1) == text.skip(w + k + n + 1));
        }
    }
}

/// Literal nodes stand for their own text: nothing is looked up and
/// nothing is run for them.
pub proof fn lemma_raw_resolves_to_itself(
    nodes: Seq<NodeView>,
    pos: int,
    done: Seq<char>,
    world: World,
    used: nat,
)
    requires
        all_raw(nodes),
        0 <= pos <= nodes.len(),
    ensures
        resolve_all(nodes, pos, done, world, used) == (Outcome::Done {
            value: done + raw_text(nodes.skip(pos)),
            used,
        }),
    decreases nodes.len() - pos,
{
    if pos < nodes.len() {
        let rest = nodes.skip(pos);
        assert(rest[0] == nodes[pos]);
        assert(nodes[pos] is Raw);
        let text = nodes[pos]->Raw_0;
        assert(resolve_node(nodes[pos], world, used) == Outcome::Done { value: text, used });
        lemma_raw_resolves_to_itself(nodes, pos + 1, done + text, world, used);
        assert(rest.skip(1) == nodes.skip(pos + 1));
        assert(done + text + raw_text(nodes.skip(pos + 1)) =~= done + (text + raw_text(
            nodes.skip(pos + 1),
        )));
    } else {
        assert(nodes.skip(pos).len() == 0);
        assert(done + Seq::<char>::empty() =~= done);
    }
}

/// What stands between single quotes is taken as it is.  After an opening
/// single quote outside double quotes, with the closing quote in the text
/// at hand, the node read resolves to the characters before the closing
/// quote, whatever the variables hold and without running anything.
pub proof fn lemma_single_quoted_text_is_verbatim(
    st: ParserState,
    home: Seq<char>,
    world: World,
    used: nat,
)
    requires
        st.context != Some(Token::Quote(Quote::Double)),
        literal_len(st.text) < st.text.len(),
    ensures
        resolve_node(spec_get_quoted(st, Quote::Single, home).0, world, used) == (Outcome::Done {
            value: st.text.take(literal_len(st.text) as int),
            used,
        }),
{
    let inside = st.within(Some(Token::Quote(Quote::Single)));
    lemma_single_quotes_are_literal(inside, home);
    let read = spec_get_sequence(inside, Token::Quote(Quote::Single), home);
    lemma_raw_resolves_to_itself(read.0, 0, Seq::empty(), world, used);
    assert(read.0.skip(0) == read.0);
    assert(Seq::<char>::empty() + raw_text(read.0) =~= raw_text(read.0));
}

/// One more redirection leaves the bindings of a command in order.
pub proof fn lemma_redirected_well_formed(
    command: CommandView,
    kind: RedirectionKind,
    operand: Seq<char>,
)
    requires
        command.well_formed(),
        command.files.len() < usize::MAX,
    ensures
        command.redirected(kind, operand).well_formed(),
{
    let after = command.redirected(kind, operand);
    assert forall|i: int| 0 <= i < after.stdin.len() implies (#[trigger] after.stdin[i])
        < after.files.len() && after.files[after.stdin[i] as int].mode
        == crate::command::OpenMode::Read by {
        if i < command.stdin.len() {
            assert(after.stdin[i] == command.stdin[i]);
        }
    }
    assert forall|i: int| 0 <= i < after.stdout.len() implies (#[trigger] after.stdout[i])
        < after.files.len() && after.files[after.stdout[i] as int].mode
        == crate::command::OpenMode::Write by {
        if i < command.stdout.len() {
            assert(after.stdout[i] == command.stdout[i]);
        }
    }
    assert forall|i: int| 0 <= i < after.stderr.len() implies (#[trigger] after.stderr[i])
        < after.files.len() && after.files[after.stderr[i] as int].mode
        == crate::command::OpenMode::Write by {
        if i < command.stderr.len() {
            assert(after.stderr[i] == command.stderr[i]);
        }
    }
}

/// How many redirection operators stand among the nodes from `pos` on.
pub open spec fn redirections_from(nodes: Seq<NodeView>, pos: int) -> nat
    decreases nodes.len() - pos,
{
    if 0 <= pos < nodes.len() {
        redirections_from(nodes, pos + 1) + (if nodes[pos] matches NodeView::Operator(
            Operator::Redirection(_),
        ) {
            1nat
        } else {
            0nat
        })
    } else {
        0
    }
}

/// The count of redirection operators does not grow along the nodes.
proof fn lemma_redirections_from(nodes: Seq<NodeView>, from: int, to: int)
    requires
        0 <= from <= to,
    ensures
        redirections_from(nodes, to) <= redirections_from(nodes, from),
    decreases to - from,
{
    if from < to {
        lemma_redirections_from(nodes, from + 1, to);
    }
}

/// The bindings of every command that resolution puts together are in
/// order: each names a file of the command, input is bound to files opened
/// for reading and output to files opened for writing.
pub proof fn lemma_sequence_is_well_formed(
    nodes: Seq<NodeView>,
    pos: int,
    draft: Draft,
    world: World,
    used: nat,
)
    requires
        draft.command.well_formed(),
        draft.command.files.len() + redirections_from(nodes, pos) < usize::MAX,
    ensures
        resolve_sequence(nodes, pos, draft, world, used) matches Outcome::Done { value, .. }
            ==> value.0.well_formed(),
    decreases nodes.len() - pos,
{
    if 0 <= pos < nodes.len() {
        match nodes[pos] {
            NodeView::Delimiter => {},
            NodeView::Operator(Operator::SemiColon) => {},
            NodeView::Operator(op) => {
                let operand = skip_white_space(nodes, pos + 1);
                lemma_skip_white_space(nodes, pos + 1);
                if pos < operand < nodes.len() {
                    match op {
                        Operator::Redirection(kind) => {
                            match resolve_node(nodes[operand], world, used) {
                                Outcome::Done { value, used } => {
                                    lemma_redirected_well_formed(draft.command, kind, value);
                                    lemma_redirections_from(nodes, pos + 1, operand + 1);
                                    lemma_sequence_is_well_formed(
                                        nodes,
                                        operand + 1,
                                        Draft {
                                            command: draft.command.redirected(kind, value),
                                            ..draft
                                        },
                                        world,
                                        used,
                                    );
                                },
                                _ => {},
                            }
                        },
                        _ => {},
                    }
                }
            },
            NodeView::WhiteSpace(_) => {
                lemma_sequence_is_well_formed(nodes, pos + 1, draft.end_word(), world, used);
            },
            node => {
                match resolve_node(node, world, used) {
                    Outcome::Done { value, used } => {
                        lemma_sequence_is_well_formed(
                            nodes,
                            pos + 1,
                            draft.extend(value),
                            world,
                            used,
                        );
                    },
                    _ => {},
                }
            },
        }
    }
}

} // verus!
