//! The grammar of a command line, as functions on text.
//!
//! A [`ParserState`] is everything the outcome of parsing depends on: the
//! unread text, the quoting context, the continuation lines that can still be
//! fed, and whether input was wanted when none was left.  Each function here
//! gives, for a state, what one parsing routine produces and the state it
//! leaves.  The parser in [`crate::parser`] is proved to compute them.

use vstd::prelude::*;
use crate::nodes::{NodeView, SubstitutionKind};
use crate::tokenizer::{fed, first_token, first_width, peek_token};
use crate::tokens::{Quote, Token, token_of_char, token_text};

verus! {

/// What parsing reads and leaves behind.
pub ghost struct ParserState {
    /// The text that the tokenizer has not handed out yet.
    pub text: Seq<char>,
    /// The construct that encloses the position, if any.
    pub context: Option<Token>,
    /// The continuation lines that have not been fed yet.
    pub lines: Seq<Seq<char>>,
    /// Whether more input was wanted when no line was left.
    pub starved: bool,
}

/// The characters of `lines`, counting one more for each line.
pub open spec fn pending_len(lines: Seq<Seq<char>>) -> nat
    decreases lines.len(),
{
    if lines.len() == 0 {
        0
    } else {
        lines[0].len() + 1 + pending_len(lines.skip(1))
    }
}

impl ParserState {
    /// A bound on the work left: every routine that reads a token or takes
    /// a line makes it smaller.
    pub open spec fn measure(self) -> nat {
        self.text.len() + pending_len(self.lines)
    }

    /// The state after `n` characters have been read.
    pub open spec fn advance(self, n: int) -> ParserState {
        ParserState { text: self.text.skip(n), ..self }
    }

    /// The state after the first token has been read.
    pub open spec fn skip_token(self) -> ParserState {
        self.advance(first_width(self.text))
    }

    /// The same position inside another construct.
    pub open spec fn within(self, context: Option<Token>) -> ParserState {
        ParserState { context, ..self }
    }

    /// The state after more input has been asked for: the first line that
    /// is left goes to the tokenizer; where none is left the state is marked
    /// as starved.
    pub open spec fn refill(self) -> ParserState {
        if self.lines.len() == 0 {
            ParserState { starved: true, ..self }
        } else {
            ParserState { text: fed(self.text, self.lines[0]), lines: self.lines.skip(1), ..self }
        }
    }
}

/// Whether `ch` has no special meaning.
pub open spec fn is_raw(ch: char) -> bool {
    token_of_char(ch) == Token::RawChar(ch)
}

/// The length of the longest prefix of `s` made of characters without
/// special meaning.
pub open spec fn raw_run(s: Seq<char>) -> nat
    decreases s.len(),
{
    if s.len() > 0 && is_raw(s[0]) {
        1 + raw_run(s.skip(1))
    } else {
        0
    }
}

/// A literal run: `first`, then every character up to the next one with a
/// special meaning or the end of the text.
pub open spec fn spec_get_raw(st: ParserState, first: Seq<char>) -> (Seq<char>, ParserState) {
    let k = raw_run(st.text) as int;
    (first + st.text.take(k), st.advance(k))
}

/// The node for a white-space character: a newline inside a substitution
/// ends a command, any other white space separates words.
pub open spec fn white_space_node(context: Option<Token>, w: char) -> NodeView {
    if w == '\n' && (context == Some(Token::DollarSign) || context == Some(
        Token::Quote(Quote::Back),
    )) {
        NodeView::Delimiter
    } else {
        NodeView::WhiteSpace(w)
    }
}

/// Whether a backslash before `token` is dropped inside double quotes and
/// back quotes.
pub open spec fn escapable(token: Token) -> bool {
    token == Token::DollarSign || token == Token::Quote(Quote::Back) || token == Token::Quote(
        Quote::Double,
    ) || token == Token::BackSlash
}

/// The text that a backslash followed by `token` stands for.  Inside double
/// quotes and back quotes the backslash stays unless `token` is one of
/// `$`, `` ` ``, `"` and `\`; elsewhere `token` is taken literally.
pub open spec fn escaped_text(context: Option<Token>, token: Token) -> Seq<char> {
    if (context == Some(Token::Quote(Quote::Double)) || context == Some(Token::Quote(Quote::Back)))
        && !escapable(token) {
        seq!['\\'] + token_text(token)
    } else {
        token_text(token)
    }
}

/// The node that a tilde stands for: itself inside double quotes, the home
/// directory elsewhere.
pub open spec fn tilde_text(context: Option<Token>, home: Seq<char>) -> Seq<char> {
    if context == Some(Token::Quote(Quote::Double)) {
        seq!['~']
    } else {
        home
    }
}

/// The node built from the sequence between a pair of quotes.
pub open spec fn quoted_node(quote: Quote, value: Seq<NodeView>) -> NodeView {
    match quote {
        Quote::Double => NodeView::Quoted { kind: crate::nodes::Quote::Double, value },
        Quote::Single => NodeView::Quoted { kind: crate::nodes::Quote::Single, value },
        Quote::Back => NodeView::Substitution { kind: SubstitutionKind::BackQuote, value },
    }
}

/// One node, read from the front of the text; `None` where the text is
/// used up.  The context after the node is the context before it.
pub open spec fn spec_next(st: ParserState, home: Seq<char>) -> (Option<NodeView>, ParserState)
    decreases st.measure(), 0nat,
{
    if st.text.len() == 0 {
        (None, st)
    } else {
        let token = first_token(st.text);
        let st1 = st.skip_token();
        if st.context == Some(Token::Quote(Quote::Single)) {
            let r = spec_get_raw(st1, token_text(token));
            (Some(NodeView::Raw(r.0)), r.1)
        } else {
            let r = match token {
                Token::Tilde => (NodeView::Raw(tilde_text(st.context, home)), st1),
                Token::RawChar(ch) => {
                    let r = spec_get_raw(st1, seq![ch]);
                    (NodeView::Raw(r.0), r.1)
                },
                Token::Quote(quote) => spec_get_quoted(st1, quote, home),
                Token::DollarSign => spec_handle_dollar_sign(st1, home),
                Token::BackSlash => spec_escape_next(st1, home),
                Token::Operator(op) => (NodeView::Operator(op), st1),
                Token::WhiteSpace(w) => (white_space_node(st.context, w), st1),
                Token::Bracket(ch) => (NodeView::Raw(seq![ch]), st1),
                Token::EOF => (NodeView::EOF, st1),
            };
            (Some(r.0), r.1.within(st.context))
        }
    }
}

/// One node, asking for more input where the text is used up; the `EOF`
/// node where none is left.
pub open spec fn spec_next_node(st: ParserState, home: Seq<char>) -> (NodeView, ParserState)
    decreases st.measure(), 1nat,
{
    if st.text.len() > 0 {
        let r = spec_next(st, home);
        (r.0.unwrap(), r.1)
    } else if st.lines.len() == 0 {
        (NodeView::EOF, st.refill())
    } else {
        spec_next_node(st.refill(), home)
    }
}

/// The nodes up to the token `closer`, which is read and dropped.  More
/// input is asked for where the text ends first; where none is left the
/// sequence ends with the `EOF` node.
pub open spec fn spec_get_sequence(st: ParserState, closer: Token, home: Seq<char>) -> (
    Seq<NodeView>,
    ParserState,
)
    decreases st.measure(), 1nat,
{
    if st.text.len() > 0 {
        if peek_token(st.text) == closer {
            (Seq::empty(), st.skip_token())
        } else {
            let r = spec_next(st, home);
            if r.1.measure() < st.measure() {
                let rest = spec_get_sequence(r.1, closer, home);
                (seq![r.0.unwrap()] + rest.0, rest.1)
            } else {
                (seq![r.0.unwrap()], r.1)
            }
        }
    } else if st.lines.len() == 0 {
        (seq![NodeView::EOF], st.refill())
    } else {
        spec_get_sequence(st.refill(), closer, home)
    }
}

/// What an opening quote starts.  A single quote inside double quotes is
/// literal text; any other quote groups the nodes up to its partner.
pub open spec fn spec_get_quoted(st: ParserState, quote: Quote, home: Seq<char>) -> (
    NodeView,
    ParserState,
)
    decreases st.measure(), 2nat,
{
    if quote == Quote::Single && st.context == Some(Token::Quote(Quote::Double)) {
        let r = spec_get_raw(st, seq!['\'']);
        (NodeView::Raw(r.0), r.1)
    } else {
        let r = spec_get_sequence(st.within(Some(Token::Quote(quote))), Token::Quote(quote), home);
        (quoted_node(quote, r.0), r.1)
    }
}

/// What a dollar sign starts: a substitution before `(`, the name of a
/// variable before a character without special meaning, and a literal `$`
/// anywhere else.
pub open spec fn spec_handle_dollar_sign(st: ParserState, home: Seq<char>) -> (
    NodeView,
    ParserState,
)
    decreases st.measure(), 2nat,
{
    let inside = st.within(Some(Token::DollarSign));
    if st.text.len() > 0 && st.text[0] == '(' {
        let r = spec_get_sequence(inside.advance(1), Token::Bracket(')'), home);
        (NodeView::Substitution { kind: SubstitutionKind::RoundBracket, value: r.0 }, r.1)
    } else if st.text.len() > 0 && is_raw(st.text[0]) {
        let r = spec_get_raw(inside.advance(1), seq![st.text[0]]);
        (NodeView::ParameterExpansion(r.0), r.1)
    } else {
        (NodeView::Raw(seq!['$']), inside)
    }
}

/// What a backslash starts.  Before a newline it joins two lines: the node
/// is the one that follows.  Before any other token it yields that token's
/// text, see [`escaped_text`].  More input is asked for where the text ends
/// after the backslash.
pub open spec fn spec_escape_next(st: ParserState, home: Seq<char>) -> (NodeView, ParserState)
    decreases st.measure(), 2nat,
{
    if st.text.len() > 0 {
        let token = first_token(st.text);
        if token == Token::WhiteSpace('\n') {
            spec_next_node(st.skip_token(), home)
        } else {
            (NodeView::Raw(escaped_text(st.context, token)), st.skip_token())
        }
    } else if st.lines.len() == 0 {
        (NodeView::EOF, st.refill())
    } else {
        spec_escape_next(st.refill(), home)
    }
}

/// All nodes of the text of `st`, read one after the other.
pub open spec fn spec_parse(st: ParserState, home: Seq<char>) -> (Seq<NodeView>, ParserState)
    decreases st.measure(),
{
    if st.text.len() == 0 {
        (Seq::empty(), st)
    } else {
        let r = spec_next(st, home);
        if r.1.measure() < st.measure() {
            let rest = spec_parse(r.1, home);
            (seq![r.0.unwrap()] + rest.0, rest.1)
        } else {
            (seq![r.0.unwrap()], r.1)
        }
    }
}

/// Taking a line makes the measure smaller.
pub proof fn lemma_refill_progress(st: ParserState)
    ensures
        st.lines.len() > 0 ==> st.refill().measure() < st.measure(),
        st.lines.len() == 0 ==> st.refill().measure() == st.measure(),
        st.refill().context == st.context,
{
}

/// A literal run leaves the context, the lines and the starvation mark as
/// they were, and never makes the measure larger.
pub proof fn lemma_get_raw_progress(st: ParserState, first: Seq<char>)
    ensures
        spec_get_raw(st, first).1.measure() <= st.measure(),
        raw_run(st.text) <= st.text.len(),
    decreases st.text.len(),
{
    if st.text.len() > 0 && is_raw(st.text[0]) {
        lemma_get_raw_progress(st.advance(1), first);
    }
}

/// Reading a node makes the measure smaller wherever there is text to read.
pub proof fn lemma_next_progress(st: ParserState, home: Seq<char>)
    ensures
        st.text.len() > 0 ==> spec_next(st, home).0 is Some && spec_next(st, home).1.measure()
            < st.measure(),
        st.text.len() == 0 ==> spec_next(st, home) == (None::<NodeView>, st),
        spec_next(st, home).1.context == st.context,
    decreases st.measure(), 0nat,
{
    if st.text.len() > 0 {
        let token = first_token(st.text);
        let st1 = st.skip_token();
        if st.context == Some(Token::Quote(Quote::Single)) {
            lemma_get_raw_progress(st1, token_text(token));
        } else {
            match token {
                Token::RawChar(ch) => {
                    lemma_get_raw_progress(st1, seq![ch]);
                },
                Token::Quote(quote) => {
                    lemma_get_quoted_progress(st1, quote, home);
                },
                Token::DollarSign => {
                    lemma_handle_dollar_sign_progress(st1, home);
                },
                Token::BackSlash => {
                    lemma_escape_next_progress(st1, home);
                },
                _ => {},
            }
        }
    }
}

/// Reading a node with refills never makes the measure larger.
pub proof fn lemma_next_node_progress(st: ParserState, home: Seq<char>)
    ensures
        spec_next_node(st, home).1.measure() <= st.measure(),
    decreases st.measure(), 1nat,
{
    if st.text.len() > 0 {
        lemma_next_progress(st, home);
    } else if st.lines.len() > 0 {
        lemma_refill_progress(st);
        lemma_next_node_progress(st.refill(), home);
    }
}

/// Reading a sequence never makes the measure larger.
pub proof fn lemma_get_sequence_progress(st: ParserState, closer: Token, home: Seq<char>)
    ensures
        spec_get_sequence(st, closer, home).1.measure() <= st.measure(),
    decreases st.measure(), 1nat,
{
    if st.text.len() > 0 {
        if peek_token(st.text) != closer {
            lemma_next_progress(st, home);
            let r = spec_next(st, home);
            lemma_get_sequence_progress(r.1, closer, home);
        }
    } else if st.lines.len() > 0 {
        lemma_refill_progress(st);
        lemma_get_sequence_progress(st.refill(), closer, home);
    }
}

/// Reading what a quote starts never makes the measure larger.
pub proof fn lemma_get_quoted_progress(st: ParserState, quote: Quote, home: Seq<char>)
    ensures
        spec_get_quoted(st, quote, home).1.measure() <= st.measure(),
    decreases st.measure(), 2nat,
{
    if quote == Quote::Single && st.context == Some(Token::Quote(Quote::Double)) {
        lemma_get_raw_progress(st, seq!['\'']);
    } else {
        lemma_get_sequence_progress(
            st.within(Some(Token::Quote(quote))),
            Token::Quote(quote),
            home,
        );
    }
}

/// Reading what a dollar sign starts never makes the measure larger.
pub proof fn lemma_handle_dollar_sign_progress(st: ParserState, home: Seq<char>)
    ensures
        spec_handle_dollar_sign(st, home).1.measure() <= st.measure(),
    decreases st.measure(), 2nat,
{
    let inside = st.within(Some(Token::DollarSign));
    if st.text.len() > 0 && st.text[0] == '(' {
        lemma_get_sequence_progress(inside.advance(1), Token::Bracket(')'), home);
    } else if st.text.len() > 0 && is_raw(st.text[0]) {
        lemma_get_raw_progress(inside.advance(1), seq![st.text[0]]);
    }
}

/// Reading what a backslash starts never makes the measure larger.
pub proof fn lemma_escape_next_progress(st: ParserState, home: Seq<char>)
    ensures
        spec_escape_next(st, home).1.measure() <= st.measure(),
    decreases st.measure(), 2nat,
{
    if st.text.len() > 0 {
        let token = first_token(st.text);
        if token == Token::WhiteSpace('\n') {
            lemma_next_node_progress(st.skip_token(), home);
        }
    } else if st.lines.len() > 0 {
        lemma_refill_progress(st);
        lemma_escape_next_progress(st.refill(), home);
    }
}

} // verus!
