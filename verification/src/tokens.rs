//! Lexical tokens of the shell language.
//!
//! Every character of the input belongs to exactly one class, given by
//! [`token_of_char`].  Two operators, `&&` and `||`, span two characters; all
//! other tokens span one.  [`token_text`] gives back the characters a token
//! was read from.

use vstd::prelude::*;
use vstd::string::*;
use crate::text::string_of_char;

verus! {

/// The three quoting characters.
#[derive(Clone, Copy, Debug, PartialEq, Eq, Structural)]
pub enum Quote {
    /// `'`
    Single,
    /// `"`
    Double,
    /// `` ` ``
    Back,
}

/// Which stream a redirection binds, and in which direction.
#[derive(Clone, Copy, Debug, PartialEq, Eq, Structural)]
pub enum RedirectionKind {
    /// `<`: the file feeds standard input.
    Input,
    /// `>`: standard output goes to the file.
    Output,
    /// `2>`: standard error goes to the file.
    Error,
    /// `&>`: standard output and standard error both go to the file.
    OutputError,
}

/// Control and redirection operators.
#[derive(Clone, Copy, Debug, PartialEq, Eq, Structural)]
pub enum Operator {
    /// `;`
    SemiColon,
    /// `&`
    And,
    /// `&&`
    AndIf,
    /// `|`
    Pipe,
    /// `||`
    Or,
    Redirection(RedirectionKind),
}

/// One lexical unit.
#[derive(Clone, Copy, Debug, PartialEq, Eq, Structural)]
pub enum Token {
    /// A space, a tab or a newline.
    WhiteSpace(char),
    /// A character with no special meaning.
    RawChar(char),
    Quote(Quote),
    /// One of `{`, `}`, `(`, `)`.
    Bracket(char),
    Operator(Operator),
    BackSlash,
    DollarSign,
    Tilde,
    /// The end of the input: no character is classified as this token.
    EOF,
}

/// The class of a single character.
pub open spec fn token_of_char(ch: char) -> Token {
    if ch == '\'' {
        Token::Quote(Quote::Single)
    } else if ch == '"' {
        Token::Quote(Quote::Double)
    } else if ch == '`' {
        Token::Quote(Quote::Back)
    } else if ch == '{' || ch == '}' || ch == '(' || ch == ')' {
        Token::Bracket(ch)
    } else if ch == ';' {
        Token::Operator(Operator::SemiColon)
    } else if ch == '&' {
        Token::Operator(Operator::And)
    } else if ch == '|' {
        Token::Operator(Operator::Pipe)
    } else if ch == '<' {
        Token::Operator(Operator::Redirection(RedirectionKind::Input))
    } else if ch == '>' {
        Token::Operator(Operator::Redirection(RedirectionKind::Output))
    } else if ch == '\\' {
        Token::BackSlash
    } else if ch == '$' {
        Token::DollarSign
    } else if ch == ' ' || ch == '\n' || ch == '\t' {
        Token::WhiteSpace(ch)
    } else if ch == '~' {
        Token::Tilde
    } else {
        Token::RawChar(ch)
    }
}

/// The spelling of a redirection operator.
pub open spec fn redirection_text(kind: RedirectionKind) -> Seq<char> {
    match kind {
        RedirectionKind::Input => seq!['<'],
        RedirectionKind::Output => seq!['>'],
        RedirectionKind::Error => seq!['2', '>'],
        RedirectionKind::OutputError => seq!['&', '>'],
    }
}

/// The spelling of an operator.
pub open spec fn operator_text(op: Operator) -> Seq<char> {
    match op {
        Operator::SemiColon => seq![';'],
        Operator::And => seq!['&'],
        Operator::AndIf => seq!['&', '&'],
        Operator::Pipe => seq!['|'],
        Operator::Or => seq!['|', '|'],
        Operator::Redirection(kind) => redirection_text(kind),
    }
}

/// The character of a quote.
pub open spec fn quote_char(quote: Quote) -> char {
    match quote {
        Quote::Single => '\'',
        Quote::Double => '"',
        Quote::Back => '`',
    }
}

/// The spelling of a token.  The end of input is spelled as a NUL character.
pub open spec fn token_text(token: Token) -> Seq<char> {
    match token {
        Token::WhiteSpace(ch) => seq![ch],
        Token::RawChar(ch) => seq![ch],
        Token::Quote(quote) => seq![quote_char(quote)],
        Token::Bracket(ch) => seq![ch],
        Token::Operator(op) => operator_text(op),
        Token::BackSlash => seq!['\\'],
        Token::DollarSign => seq!['$'],
        Token::Tilde => seq!['~'],
        Token::EOF => seq!['\0'],
    }
}

impl From<char> for Token {
    /// Classifies one character.
    fn from(ch: char) -> (token: Token) {
        match ch {
            '\'' => Token::Quote(Quote::Single),
            '"' => Token::Quote(Quote::Double),
            '`' => Token::Quote(Quote::Back),
            '{' | '}' | '(' | ')' => Token::Bracket(ch),
            ';' => Token::Operator(Operator::SemiColon),
            '&' => Token::Operator(Operator::And),
            '|' => Token::Operator(Operator::Pipe),
            '<' => Token::Operator(Operator::Redirection(RedirectionKind::Input)),
            '>' => Token::Operator(Operator::Redirection(RedirectionKind::Output)),
            '\\' => Token::BackSlash,
            '$' => Token::DollarSign,
            ' ' | '\n' | '\t' => Token::WhiteSpace(ch),
            '~' => Token::Tilde,
            _ => Token::RawChar(ch),
        }
    }
}

impl vstd::std_specs::convert::FromSpecImpl<char> for Token {
    open spec fn obeys_from_spec() -> bool {
        true
    }

    open spec fn from_spec(ch: char) -> Token {
        token_of_char(ch)
    }
}

impl RedirectionKind {
    /// The spelling of this redirection operator.
    pub fn text(self) -> (out: String)
        ensures
            out@ == redirection_text(self),
    {
        let mut out = String::new();
        match self {
            RedirectionKind::Input => {
                out.push('<');
            },
            RedirectionKind::Output => {
                out.push('>');
            },
            RedirectionKind::Error => {
                out.push('2');
                out.push('>');
            },
            RedirectionKind::OutputError => {
                out.push('&');
                out.push('>');
            },
        }
        assert(out@ =~= redirection_text(self));
        out
    }
}

impl Operator {
    /// The spelling of this operator.
    pub fn text(self) -> (out: String)
        ensures
            out@ == operator_text(self),
    {
        let mut out = String::new();
        match self {
            Operator::SemiColon => {
                out.push(';');
            },
            Operator::And => {
                out.push('&');
            },
            Operator::AndIf => {
                out.push('&');
                out.push('&');
            },
            Operator::Pipe => {
                out.push('|');
            },
            Operator::Or => {
                out.push('|');
                out.push('|');
            },
            Operator::Redirection(kind) => {
                return kind.text();
            },
        }
        assert(out@ =~= operator_text(self));
        out
    }
}

impl Quote {
    /// The character of this quote.
    pub fn as_char(self) -> (ch: char)
        ensures
            ch == quote_char(self),
    {
        match self {
            Quote::Single => '\'',
            Quote::Double => '"',
            Quote::Back => '`',
        }
    }
}

impl Token {
    /// The spelling of this token.
    pub fn text(self) -> (out: String)
        ensures
            out@ == token_text(self),
    {
        match self {
            Token::WhiteSpace(ch) => string_of_char(ch),
            Token::RawChar(ch) => string_of_char(ch),
            Token::Quote(quote) => string_of_char(quote.as_char()),
            Token::Bracket(ch) => string_of_char(ch),
            Token::Operator(op) => op.text(),
            Token::BackSlash => string_of_char('\\'),
            Token::DollarSign => string_of_char('$'),
            Token::Tilde => string_of_char('~'),
            Token::EOF => string_of_char('\0'),
        }
    }
}

impl From<Operator> for String {
    fn from(op: Operator) -> (out: String)
        ensures
            out@ == operator_text(op),
    {
        op.text()
    }
}

impl vstd::std_specs::convert::FromSpecImpl<Operator> for String {
    open spec fn obeys_from_spec() -> bool {
        false
    }

    open spec fn from_spec(op: Operator) -> String {
        arbitrary()
    }
}

impl From<RedirectionKind> for &str {
    fn from(kind: RedirectionKind) -> (out: &'static str)
        ensures
            out@ == redirection_text(kind),
    {
        proof {
            reveal_strlit("<");
            reveal_strlit(">");
            reveal_strlit("2>");
            reveal_strlit("&>");
        }
        let out = match kind {
            RedirectionKind::Input => "<",
            RedirectionKind::Output => ">",
            RedirectionKind::Error => "2>",
            RedirectionKind::OutputError => "&>",
        };
        assert(out@ =~= redirection_text(kind));
        out
    }
}

impl vstd::std_specs::convert::FromSpecImpl<RedirectionKind> for &str {
    open spec fn obeys_from_spec() -> bool {
        false
    }

    open spec fn from_spec(kind: RedirectionKind) -> &'static str {
        arbitrary()
    }
}

impl From<Token> for String {
    fn from(token: Token) -> (out: String)
        ensures
            out@ == token_text(token),
    {
        token.text()
    }
}

impl vstd::std_specs::convert::FromSpecImpl<Token> for String {
    open spec fn obeys_from_spec() -> bool {
        false
    }

    open spec fn from_spec(token: Token) -> String {
        arbitrary()
    }
}

/// Every character is the whole spelling of its own class.
pub proof fn lemma_char_round_trip(ch: char)
    ensures
        token_text(token_of_char(ch)) == seq![ch],
{
}

} // verus!
