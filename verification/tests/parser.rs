use zero_shell::nodes::{Node, Quote, SubstitutionKind};
use zero_shell::parser::Parser;
use zero_shell::tokens::{Operator, RedirectionKind};

fn raw(text: &str) -> Node {
    Node::Raw(text.to_string())
}

fn space() -> Node {
    Node::WhiteSpace(' ')
}

fn parse(source: &str) -> Vec<Node> {
    Parser::new(source).nodes()
}

#[test]
fn words_and_white_space() {
    assert_eq!(
        parse("echo a\tb\n"),
        vec![
            raw("echo"),
            space(),
            raw("a"),
            Node::WhiteSpace('\t'),
            raw("b"),
            Node::WhiteSpace('\n'),
        ]
    );
}

#[test]
fn next_hands_out_one_node_at_a_time() {
    let mut parser = Parser::new("a;b");
    assert_eq!(parser.next(), Some(raw("a")));
    assert_eq!(parser.next(), Some(Node::Operator(Operator::SemiColon)));
    assert_eq!(parser.next(), Some(raw("b")));
    assert_eq!(parser.next(), None);
    assert!(!parser.starved());
}

#[test]
fn single_quotes_hold_literal_text() {
    assert_eq!(
        parse("'a $B `c` \\ \"d\" ~'"),
        vec![Node::Quoted {
            kind: Quote::Single,
            value: vec![
                raw("a"),
                raw(" "),
                raw("$B"),
                raw(" "),
                raw("`c"),
                raw("`"),
                raw(" "),
                raw("\\"),
                raw(" "),
                raw("\"d"),
                raw("\""),
                raw(" "),
                raw("~"),
            ],
        }]
    );
}

#[test]
fn double_quotes_hold_expansions() {
    assert_eq!(
        parse("\"a $B 'c' ~ `d`\""),
        vec![Node::Quoted {
            kind: Quote::Double,
            value: vec![
                raw("a"),
                space(),
                Node::ParameterExpansion("B".to_string()),
                space(),
                raw("'c"),
                raw("'"),
                space(),
                raw("~"),
                space(),
                Node::Substitution {
                    kind: SubstitutionKind::BackQuote,
                    value: vec![raw("d")],
                },
            ],
        }]
    );
}

#[test]
fn dollar_sign_forms() {
    assert_eq!(
        parse("$(a b)"),
        vec![Node::Substitution {
            kind: SubstitutionKind::RoundBracket,
            value: vec![raw("a"), space(), raw("b")],
        }]
    );
    assert_eq!(
        parse("$name-x"),
        vec![Node::ParameterExpansion("name-x".to_string())]
    );
    assert_eq!(parse("$"), vec![raw("$")]);
    assert_eq!(parse("$ a"), vec![raw("$"), space(), raw("a")]);
}

#[test]
fn newline_ends_a_command_inside_a_substitution() {
    assert_eq!(
        parse("$(a\nb)"),
        vec![Node::Substitution {
            kind: SubstitutionKind::RoundBracket,
            value: vec![raw("a"), Node::Delimiter, raw("b")],
        }]
    );
    assert_eq!(
        parse("`a\nb`"),
        vec![Node::Substitution {
            kind: SubstitutionKind::BackQuote,
            value: vec![raw("a"), Node::Delimiter, raw("b")],
        }]
    );
    assert_eq!(parse("a\nb"), vec![raw("a"), Node::WhiteSpace('\n'), raw("b")]);
}

#[test]
fn context_does_not_leak_out_of_a_quote() {
    assert_eq!(
        parse("\"a\"'b'"),
        vec![
            Node::Quoted { kind: Quote::Double, value: vec![raw("a")] },
            Node::Quoted { kind: Quote::Single, value: vec![raw("b")] },
        ]
    );
    assert_eq!(
        parse("$(a)\nb"),
        vec![
            Node::Substitution {
                kind: SubstitutionKind::RoundBracket,
                value: vec![raw("a")],
            },
            Node::WhiteSpace('\n'),
            raw("b"),
        ]
    );
}

#[test]
fn backslash_outside_quotes_takes_the_next_token_literally() {
    assert_eq!(parse("\\$a"), vec![raw("$"), raw("a")]);
    assert_eq!(parse("\\ a"), vec![raw(" "), raw("a")]);
    assert_eq!(parse("\\'"), vec![raw("'")]);
    assert_eq!(parse("\\a"), vec![raw("a")]);
}

#[test]
fn backslash_inside_double_quotes() {
    assert_eq!(
        parse("\"\\$\\`\\\"\\\\\\a\""),
        vec![Node::Quoted {
            kind: Quote::Double,
            value: vec![raw("$"), raw("`"), raw("\""), raw("\\"), raw("\\a")],
        }]
    );
}

#[test]
fn backslash_inside_back_quotes() {
    assert_eq!(
        parse("`\\$\\a`"),
        vec![Node::Substitution {
            kind: SubstitutionKind::BackQuote,
            value: vec![raw("$"), raw("\\a")],
        }]
    );
}

#[test]
fn backslash_newline_joins_lines() {
    assert_eq!(parse("a\\\nb"), vec![raw("a"), raw("b")]);
    let mut parser = Parser::with_reader("a \\\n", vec!["b\n".to_string()]);
    assert_eq!(
        parser.nodes(),
        vec![raw("a"), space(), raw("b"), Node::WhiteSpace('\n')]
    );
    assert!(!parser.starved());
}

#[test]
fn tilde_stands_for_home() {
    let mut parser = Parser::new("~ \"~\" '~'").with_home("/home/u");
    assert_eq!(
        parser.nodes(),
        vec![
            raw("/home/u"),
            space(),
            Node::Quoted { kind: Quote::Double, value: vec![raw("~")] },
            space(),
            Node::Quoted { kind: Quote::Single, value: vec![raw("~")] },
        ]
    );
    assert_eq!(parse("~"), vec![raw("")]);
}

#[test]
fn operators_and_brackets() {
    assert_eq!(
        parse("a>b<c&&d{e}"),
        vec![
            raw("a"),
            Node::Operator(Operator::Redirection(RedirectionKind::Output)),
            raw("b"),
            Node::Operator(Operator::Redirection(RedirectionKind::Input)),
            raw("c"),
            Node::Operator(Operator::AndIf),
            raw("d"),
            raw("{"),
            raw("e"),
            raw("}"),
        ]
    );
}

#[test]
fn open_quote_takes_continuation_lines() {
    let mut parser = Parser::with_reader(
        "echo \"a\n",
        vec!["b\n".to_string(), "c\" d\n".to_string()],
    );
    assert_eq!(
        parser.nodes(),
        vec![
            raw("echo"),
            space(),
            Node::Quoted {
                kind: Quote::Double,
                value: vec![
                    raw("a"),
                    Node::WhiteSpace('\n'),
                    raw("b"),
                    Node::WhiteSpace('\n'),
                    raw("c"),
                ],
            },
            space(),
            raw("d"),
            Node::WhiteSpace('\n'),
        ]
    );
    assert!(!parser.starved());
}

#[test]
fn open_quote_without_more_input_is_closed_by_eof() {
    let mut parser = Parser::new("'a");
    assert_eq!(
        parser.nodes(),
        vec![Node::Quoted { kind: Quote::Single, value: vec![raw("a"), Node::EOF] }]
    );
    assert!(parser.starved());
}

#[test]
fn trailing_backslash_without_more_input_is_eof() {
    let mut parser = Parser::new("a\\");
    assert_eq!(parser.nodes(), vec![raw("a"), Node::EOF]);
    assert!(parser.starved());
}

#[test]
fn feed_reports_whether_a_line_was_left() {
    let mut parser = Parser::with_reader("", vec!["x".to_string()]);
    assert_eq!(parser.next(), None);
    assert!(parser.feed());
    assert_eq!(parser.next(), Some(raw("x")));
    assert!(!parser.starved());
    assert!(!parser.feed());
    assert!(parser.starved());
}

#[test]
fn quote_character_of_a_node_quote() {
    assert_eq!(char::from(Quote::Single), '\'');
    assert_eq!(char::from(Quote::Double), '"');
    let ch: char = Quote::Double.into();
    assert_eq!(ch, '"');
}
