//! The parser: a recursive reader of tokens that produces syntax nodes.
//!
//! A [`Parser`] never fails.  Where the text ends inside a quote or a
//! substitution it takes the next continuation line it was given; where none
//! is left it closes the construct with the `EOF` node and records that it
//! was starved, so that the caller can come back with one more line.
//!
//! The view of a parser is its [`ParserState`]; every routine is proved to
//! compute the function of [`crate::grammar`] that bears its name.

use vstd::prelude::*;
use vstd::string::*;
use crate::grammar::{
    ParserState,
    is_raw,
    lemma_next_progress,
    lemma_refill_progress,
    raw_run,
    spec_escape_next,
    spec_get_quoted,
    spec_get_raw,
    spec_get_sequence,
    spec_handle_dollar_sign,
    spec_next,
    spec_next_node,
    spec_parse,
    white_space_node,
};
use crate::nodes::{
    Node,
    NodeView,
    Sequence,
    SubstitutionKind,
    lemma_quoted_view,
    lemma_substitution_view,
    option_view,
    views,
};
use crate::text::{string_of_char, texts};
use crate::tokenizer::Tokenizer;
use crate::tokens::{Quote, Token};

verus! {

/// Parses shell input into nodes.
pub struct Parser {
    tokenizer: Tokenizer,
    context: Option<Token>,
    reader: Vec<String>,
    starved: bool,
    home: String,
}

impl View for Parser {
    type V = ParserState;

    closed spec fn view(&self) -> ParserState {
        ParserState {
            text: self.tokenizer@,
            context: self.context,
            lines: texts(self.reader@),
            starved: self.starved,
        }
    }
}

impl Parser {
    /// The text that a tilde stands for outside double quotes.
    pub closed spec fn home_text(&self) -> Seq<char> {
        self.home@
    }

    /// A parser over `source` with no further input.
    pub fn new(source: &str) -> (parser: Parser)
        ensures
            parser@ == (ParserState {
                text: source@,
                context: None,
                lines: Seq::empty(),
                starved: false,
            }),
            parser.home_text() == Seq::<char>::empty(),
    {
        let parser = Parser {
            tokenizer: Tokenizer::new(source),
            context: None,
            reader: Vec::new(),
            starved: false,
            home: String::new(),
        };
        assert(parser@.lines =~= Seq::empty());
        parser
    }

    /// A parser over `source` that takes its continuation lines from
    /// `reader`, first to last.
    pub fn with_reader(source: &str, reader: Vec<String>) -> (parser: Parser)
        ensures
            parser@ == (ParserState {
                text: source@,
                context: None,
                lines: texts(reader@),
                starved: false,
            }),
            parser.home_text() == Seq::<char>::empty(),
    {
        Parser {
            tokenizer: Tokenizer::new(source),
            context: None,
            reader,
            starved: false,
            home: String::new(),
        }
    }

    /// The same parser with `home` as the text of a tilde.
    pub fn with_home(self, home: &str) -> (parser: Parser)
        ensures
            parser@ == self@,
            parser.home_text() == home@,
    {
        Parser {
            tokenizer: self.tokenizer,
            context: self.context,
            reader: self.reader,
            starved: self.starved,
            home: home.to_owned(),
        }
    }

    /// Whether more input was wanted when no continuation line was left.
    pub fn starved(&self) -> (starved: bool)
        ensures
            starved == self@.starved,
    {
        self.starved
    }

    /// Hands the next continuation line to the tokenizer.  Returns `false`,
    /// and records the starvation, where no line is left.
    pub fn feed(&mut self) -> (fed: bool)
        ensures
            final(self)@ == old(self)@.refill(),
            fed == (old(self)@.lines.len() > 0),
            final(self).home_text() == old(self).home_text(),
    {
        if self.reader.len() > 0 {
            let ghost lines = self.reader@;
            let line = self.reader.remove(0);
            assert(texts(lines)[0] == line@);
            assert(texts(lines).skip(1) =~= texts(self.reader@));
            self.tokenizer.feed(line.as_str());
            true
        } else {
            self.starved = true;
            false
        }
    }

    /// Reads a literal run that starts with `first`.
    fn get_raw(&mut self, first: String) -> (out: String)
        ensures
            (out@, final(self)@) == spec_get_raw(old(self)@, first@),
            final(self).home_text() == old(self).home_text(),
    {
        let mut out = first;
        let ghost start = self@;
        let ghost mut k: int = 0;
        proof {
            assert(start.text.skip(0) == start.text);
            assert(start.text.take(0) == Seq::<char>::empty());
            assert(first@ + Seq::<char>::empty() == first@);
        }
        loop
            invariant
                0 <= k <= start.text.len(),
                self@ == start.advance(k),
                out@ == first@ + start.text.take(k),
                raw_run(start.text) == k + raw_run(self@.text),
                self.home_text() == old(self).home_text(),
                start == old(self)@,
            ensures
                (out@, self@) == spec_get_raw(start, first@),
                self.home_text() == old(self).home_text(),
            decreases start.text.len() - k,
        {
            let current = self.tokenizer.current();
            match current {
                Token::RawChar(ch) => {
                    let ghost before = self@;
                    assert(before.text.len() > 0);
                    assert(before.text[0] == ch);
                    assert(is_raw(ch));
                    self.tokenizer.next();
                    out.push(ch);
                    proof {
                        assert(before.text[0] == start.text[k]);
                        assert(start.text.skip(k).skip(1) == start.text.skip(k + 1));
                        assert(start.text.take(k + 1) == start.text.take(k).push(ch));
                        assert(first@ + start.text.take(k).push(ch) == (first@ + start.text.take(
                            k,
                        )).push(ch));
                        k = k + 1;
                    }
                },
                _ => {
                    assert(raw_run(self@.text) == 0);
                    break ;
                },
            }
        }
        out
    }

    /// The node for the white-space character `w`.
    fn handle_white_space(&self, w: char) -> (node: Node)
        ensures
            node@ == white_space_node(self@.context, w),
    {
        let inside_substitution = match self.context {
            Some(Token::DollarSign) => true,
            Some(Token::Quote(Quote::Back)) => true,
            _ => false,
        };
        if inside_substitution && w == '\n' {
            Node::Delimiter
        } else {
            Node::WhiteSpace(w)
        }
    }

    /// Reads nodes up to the token `closer` and drops it.
    fn get_sequence(&mut self, closer: Token) -> (seq: Sequence)
        requires
            closer != Token::EOF,
        ensures
            (views(seq@), final(self)@) == spec_get_sequence(
                old(self)@,
                closer,
                old(self).home_text(),
            ),
            final(self).home_text() == old(self).home_text(),
        decreases old(self)@.measure(), 1nat,
    {
        let mut seq: Sequence = Vec::new();
        let ghost start = self@;
        let ghost home = self.home_text();
        proof {
            assert(views(seq@) =~= Seq::<NodeView>::empty());
            assert(Seq::<NodeView>::empty() + spec_get_sequence(start, closer, home).0
                =~= spec_get_sequence(start, closer, home).0);
        }
        loop
            invariant_except_break
                self@.measure() <= start.measure(),
                spec_get_sequence(start, closer, home) == (
                    views(seq@) + spec_get_sequence(self@, closer, home).0,
                    spec_get_sequence(self@, closer, home).1,
                ),
            invariant
                closer != Token::EOF,
                self.home_text() == home,
                start == old(self)@,
            ensures
                (views(seq@), self@) == spec_get_sequence(start, closer, home),
                self.home_text() == home,
            decreases self@.measure(),
        {
            let ghost before = self@;
            let ghost done = views(seq@);
            if self.tokenizer.current() == closer {
                self.tokenizer.next();
                proof {
                    assert(spec_get_sequence(before, closer, home).0 =~= Seq::<NodeView>::empty());
                    assert(done + Seq::<NodeView>::empty() =~= done);
                }
                break ;
            }
            proof {
                lemma_next_progress(before, home);
            }
            match self.next() {
                Some(node) => {
                    proof {
                        let r = spec_next(before, home);
                        let rest = spec_get_sequence(r.1, closer, home);
                        assert(spec_get_sequence(before, closer, home) == (
                            seq![r.0.unwrap()] + rest.0,
                            rest.1,
                        ));
                        assert(views(seq@.push(node)) =~= done.push(node@));
                        assert(done + (seq![node@] + rest.0) =~= done.push(node@) + rest.0);
                    }
                    seq.push(node);
                },
                None => {
                    proof {
                        lemma_refill_progress(before);
                    }
                    if !self.feed() {
                        proof {
                            assert(spec_get_sequence(before, closer, home) == (
                                seq![NodeView::EOF],
                                before.refill(),
                            ));
                            assert(views(seq@.push(Node::EOF)) =~= done.push(NodeView::EOF));
                            assert(done + seq![NodeView::EOF] =~= done.push(NodeView::EOF));
                        }
                        seq.push(Node::EOF);
                        break ;
                    }
                },
            }
        }
        seq
    }

    /// Reads what the opening quote `quote` starts.
    fn get_quoted(&mut self, quote: Quote) -> (node: Node)
        ensures
            (node@, final(self)@) == spec_get_quoted(old(self)@, quote, old(self).home_text()),
            final(self).home_text() == old(self).home_text(),
        decreases old(self)@.measure(), 2nat,
    {
        let inside_double = match self.context {
            Some(Token::Quote(Quote::Double)) => true,
            _ => false,
        };
        match quote {
            Quote::Single => {
                if inside_double {
                    let text = self.get_raw(string_of_char('\''));
                    return Node::Raw(text);
                }
            },
            _ => {},
        }
        self.context = Some(Token::Quote(quote));
        let value = self.get_sequence(Token::Quote(quote));
        match quote {
            Quote::Double => {
                proof {
                    lemma_quoted_view(crate::nodes::Quote::Double, value);
                }
                Node::Quoted { kind: crate::nodes::Quote::Double, value }
            },
            Quote::Back => {
                proof {
                    lemma_substitution_view(SubstitutionKind::BackQuote, value);
                }
                Node::Substitution { kind: SubstitutionKind::BackQuote, value }
            },
            Quote::Single => {
                proof {
                    lemma_quoted_view(crate::nodes::Quote::Single, value);
                }
                Node::Quoted { kind: crate::nodes::Quote::Single, value }
            },
        }
    }

    /// Reads what a dollar sign starts.
    fn handle_dollar_sign(&mut self) -> (node: Node)
        ensures
            (node@, final(self)@) == spec_handle_dollar_sign(old(self)@, old(self).home_text()),
            final(self).home_text() == old(self).home_text(),
        decreases old(self)@.measure(), 2nat,
    {
        self.context = Some(Token::DollarSign);
        match self.tokenizer.current() {
            Token::Bracket(ch) => {
                if ch == '(' {
                    self.tokenizer.next();
                    let value = self.get_sequence(Token::Bracket(')'));
                    proof {
                        lemma_substitution_view(SubstitutionKind::RoundBracket, value);
                    }
                    return Node::Substitution { kind: SubstitutionKind::RoundBracket, value };
                }
            },
            Token::RawChar(ch) => {
                self.tokenizer.next();
                let name = self.get_raw(string_of_char(ch));
                return Node::ParameterExpansion(name);
            },
            _ => {},
        }
        Node::Raw(string_of_char('$'))
    }

    /// Reads one node, taking continuation lines where the text is used up.
    fn next_node(&mut self) -> (node: Node)
        ensures
            (node@, final(self)@) == spec_next_node(old(self)@, old(self).home_text()),
            final(self).home_text() == old(self).home_text(),
        decreases old(self)@.measure(), 1nat,
    {
        proof {
            lemma_next_progress(self@, self.home_text());
            lemma_refill_progress(self@);
        }
        match self.next() {
            Some(node) => node,
            None => {
                if self.feed() {
                    self.next_node()
                } else {
                    Node::EOF
                }
            },
        }
    }

    /// Reads what a backslash starts.
    fn escape_next(&mut self) -> (node: Node)
        ensures
            (node@, final(self)@) == spec_escape_next(old(self)@, old(self).home_text()),
            final(self).home_text() == old(self).home_text(),
        decreases old(self)@.measure(), 2nat,
    {
        proof {
            lemma_refill_progress(self@);
        }
        match self.tokenizer.next() {
            None => {
                if self.feed() {
                    self.escape_next()
                } else {
                    Node::EOF
                }
            },
            Some(token) => {
                match token {
                    Token::WhiteSpace(w) => {
                        if w == '\n' {
                            return self.next_node();
                        }
                    },
                    _ => {},
                }
                let quoted = match self.context {
                    Some(Token::Quote(Quote::Double)) => true,
                    Some(Token::Quote(Quote::Back)) => true,
                    _ => false,
                };
                let literal = match token {
                    Token::DollarSign => true,
                    Token::Quote(Quote::Back) => true,
                    Token::Quote(Quote::Double) => true,
                    Token::BackSlash => true,
                    _ => false,
                };
                if quoted && !literal {
                    let mut text = string_of_char('\\');
                    text.append(token.text().as_str());
                    Node::Raw(text)
                } else {
                    Node::Raw(token.text())
                }
            },
        }
    }

    /// Reads one node; `None` where the text is used up.
    pub fn next(&mut self) -> (node: Option<Node>)
        ensures
            (option_view(node), final(self)@) == spec_next(old(self)@, old(self).home_text()),
            final(self).home_text() == old(self).home_text(),
        decreases old(self)@.measure(), 0nat,
    {
        let current = match self.tokenizer.next() {
            Some(token) => token,
            None => {
                return None;
            },
        };
        match self.context {
            Some(Token::Quote(Quote::Single)) => {
                let text = self.get_raw(current.text());
                return Some(Node::Raw(text));
            },
            _ => {},
        }
        let parent = self.context;
        let node = match current {
            Token::Tilde => {
                let inside_double = match self.context {
                    Some(Token::Quote(Quote::Double)) => true,
                    _ => false,
                };
                if inside_double {
                    Node::Raw(string_of_char('~'))
                } else {
                    Node::Raw(self.home.clone())
                }
            },
            Token::RawChar(ch) => Node::Raw(self.get_raw(string_of_char(ch))),
            Token::Quote(quote) => self.get_quoted(quote),
            Token::DollarSign => self.handle_dollar_sign(),
            Token::BackSlash => self.escape_next(),
            Token::Operator(op) => Node::Operator(op),
            Token::WhiteSpace(w) => self.handle_white_space(w),
            Token::Bracket(ch) => Node::Raw(string_of_char(ch)),
            Token::EOF => Node::EOF,
        };
        self.context = parent;
        Some(node)
    }

    /// Reads every node of the text.
    pub fn nodes(&mut self) -> (seq: Sequence)
        ensures
            (views(seq@), final(self)@) == spec_parse(old(self)@, old(self).home_text()),
            final(self).home_text() == old(self).home_text(),
    {
        let mut seq: Sequence = Vec::new();
        let ghost start = self@;
        let ghost home = self.home_text();
        proof {
            assert(views(seq@) =~= Seq::<NodeView>::empty());
            assert(Seq::<NodeView>::empty() + spec_parse(start, home).0 =~= spec_parse(
                start,
                home,
            ).0);
        }
        loop
            invariant_except_break
                spec_parse(start, home) == (
                    views(seq@) + spec_parse(self@, home).0,
                    spec_parse(self@, home).1,
                ),
            invariant
                self.home_text() == home,
            ensures
                (views(seq@), self@) == spec_parse(start, home),
                self.home_text() == home,
            decreases self@.measure(),
        {
            let ghost before = self@;
            let ghost done = views(seq@);
            proof {
                lemma_next_progress(before, home);
            }
            match self.next() {
                Some(node) => {
                    proof {
                        let r = spec_next(before, home);
                        let rest = spec_parse(r.1, home);
                        assert(views(seq@.push(node)) =~= done.push(node@));
                        assert(done + (seq![node@] + rest.0) =~= done.push(node@) + rest.0);
                    }
                    seq.push(node);
                },
                None => {
                    proof {
                        assert(done + Seq::<NodeView>::empty() =~= done);
                    }
                    break ;
                },
            }
        }
        seq
    }
}

} // verus!
