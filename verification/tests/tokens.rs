use zero_shell::tokenizer::Tokenizer;
use zero_shell::tokens::{Operator, Quote, RedirectionKind, Token};

fn all_tokens(source: &str) -> Vec<Token> {
    let mut tokenizer = Tokenizer::new(source);
    let mut tokens = Vec::new();
    while let Some(token) = tokenizer.next() {
        tokens.push(token);
    }
    assert_eq!(Tokenizer::new(source).tokens(), tokens);
    tokens
}

fn spell(tokens: &[Token]) -> String {
    tokens.iter().map(|token| String::from(*token)).collect()
}

#[test]
fn characters_are_classified() {
    assert_eq!(Token::from('\''), Token::Quote(Quote::Single));
    assert_eq!(Token::from('"'), Token::Quote(Quote::Double));
    assert_eq!(Token::from('`'), Token::Quote(Quote::Back));
    for ch in ['{', '}', '(', ')'] {
        assert_eq!(Token::from(ch), Token::Bracket(ch));
    }
    assert_eq!(Token::from(';'), Token::Operator(Operator::SemiColon));
    assert_eq!(Token::from('&'), Token::Operator(Operator::And));
    assert_eq!(Token::from('|'), Token::Operator(Operator::Pipe));
    assert_eq!(
        Token::from('<'),
        Token::Operator(Operator::Redirection(RedirectionKind::Input))
    );
    assert_eq!(
        Token::from('>'),
        Token::Operator(Operator::Redirection(RedirectionKind::Output))
    );
    assert_eq!(Token::from('\\'), Token::BackSlash);
    assert_eq!(Token::from('$'), Token::DollarSign);
    assert_eq!(Token::from('~'), Token::Tilde);
    for ch in [' ', '\n', '\t'] {
        assert_eq!(Token::from(ch), Token::WhiteSpace(ch));
    }
    assert_eq!(Token::from('a'), Token::RawChar('a'));
    assert_eq!(Token::from('é'), Token::RawChar('é'));
    let token: Token = '9'.into();
    assert_eq!(token, Token::RawChar('9'));
}

#[test]
fn tokens_are_spelled() {
    assert_eq!(String::from(Token::WhiteSpace('\t')), "\t");
    assert_eq!(String::from(Token::RawChar('x')), "x");
    assert_eq!(String::from(Token::Quote(Quote::Single)), "'");
    assert_eq!(String::from(Token::Quote(Quote::Double)), "\"");
    assert_eq!(String::from(Token::Quote(Quote::Back)), "`");
    assert_eq!(String::from(Token::Bracket('(')), "(");
    assert_eq!(String::from(Token::BackSlash), "\\");
    assert_eq!(String::from(Token::DollarSign), "$");
    assert_eq!(String::from(Token::Tilde), "~");
    assert_eq!(String::from(Token::EOF), "\0");
    assert_eq!(Token::Tilde.text(), "~");
}

#[test]
fn operators_are_spelled() {
    assert_eq!(String::from(Operator::SemiColon), ";");
    assert_eq!(String::from(Operator::And), "&");
    assert_eq!(String::from(Operator::AndIf), "&&");
    assert_eq!(String::from(Operator::Pipe), "|");
    assert_eq!(String::from(Operator::Or), "||");
    assert_eq!(
        String::from(Operator::Redirection(RedirectionKind::Input)),
        "<"
    );
    assert_eq!(<&str>::from(RedirectionKind::Input), "<");
    assert_eq!(<&str>::from(RedirectionKind::Output), ">");
    assert_eq!(<&str>::from(RedirectionKind::Error), "2>");
    assert_eq!(<&str>::from(RedirectionKind::OutputError), "&>");
    assert_eq!(RedirectionKind::OutputError.text(), "&>");
    assert_eq!(Quote::Back.as_char(), '`');
}

#[test]
fn doubled_operators_are_one_token() {
    assert_eq!(
        all_tokens("a&&b||c"),
        vec![
            Token::RawChar('a'),
            Token::Operator(Operator::AndIf),
            Token::RawChar('b'),
            Token::Operator(Operator::Or),
            Token::RawChar('c'),
        ]
    );
    assert_eq!(
        all_tokens("&&&"),
        vec![
            Token::Operator(Operator::AndIf),
            Token::Operator(Operator::And),
        ]
    );
    assert_eq!(
        all_tokens("|&"),
        vec![
            Token::Operator(Operator::Pipe),
            Token::Operator(Operator::And),
        ]
    );
}

#[test]
fn raw_and_operator_tokens_round_trip() {
    for source in ["echo", "a;b", "x&&y||z", "a|b&c<d>e", "&", "||||", ""] {
        assert_eq!(spell(&all_tokens(source)), source);
    }
}

#[test]
fn every_text_round_trips() {
    let source = "echo \"a $B\" 'c' `d` \\e ~ {f} (g)\n\tend";
    assert_eq!(spell(&all_tokens(source)), source);
}

#[test]
fn empty_source_has_no_token() {
    let mut tokenizer = Tokenizer::new("");
    assert!(tokenizer.is_empty());
    assert_eq!(tokenizer.current(), Token::EOF);
    assert_eq!(tokenizer.next(), None);
    assert_eq!(tokenizer.next(), None);
}

#[test]
fn current_looks_ahead() {
    let mut tokenizer = Tokenizer::new("a'");
    assert_eq!(tokenizer.remaining(), 2);
    assert_eq!(tokenizer.current(), Token::RawChar('a'));
    assert_eq!(tokenizer.next(), Some(Token::RawChar('a')));
    assert_eq!(tokenizer.current(), Token::Quote(Quote::Single));
    assert_eq!(tokenizer.next(), Some(Token::Quote(Quote::Single)));
    assert_eq!(tokenizer.current(), Token::EOF);
    assert_eq!(tokenizer.remaining(), 0);
}

#[test]
fn feed_starts_afresh_when_run_out() {
    let mut tokenizer = Tokenizer::new("a");
    assert_eq!(tokenizer.next(), Some(Token::RawChar('a')));
    assert_eq!(tokenizer.next(), None);
    tokenizer.feed("b;");
    assert_eq!(tokenizer.next(), Some(Token::RawChar('b')));
    assert_eq!(tokenizer.next(), Some(Token::Operator(Operator::SemiColon)));
    assert_eq!(tokenizer.next(), None);
}

#[test]
fn feed_keeps_the_character_under_the_cursor() {
    let mut tokenizer = Tokenizer::new("abc");
    assert_eq!(tokenizer.next(), Some(Token::RawChar('a')));
    tokenizer.feed("xy");
    assert_eq!(tokenizer.next(), Some(Token::RawChar('b')));
    assert_eq!(tokenizer.next(), Some(Token::RawChar('x')));
    assert_eq!(tokenizer.next(), Some(Token::RawChar('y')));
    assert_eq!(tokenizer.next(), None);
}
