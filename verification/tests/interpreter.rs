use zero_shell::command::{Command, OpenMode, Target};
use zero_shell::interpreter::{Interpreter, Stop};
use zero_shell::nodes::Node;
use zero_shell::parser::Parser;
use zero_shell::tokens::Operator;

fn env(pairs: &[(&str, &str)]) -> Vec<(String, String)> {
    pairs.iter().map(|(k, v)| (k.to_string(), v.to_string())).collect()
}

fn words(command: &Command) -> Vec<String> {
    let mut all = vec![command.name.clone()];
    all.extend(command.args.iter().cloned());
    all
}

#[test]
fn single_quotes_keep_their_contents_verbatim() {
    let interpreter = Interpreter::new(env(&[("VAR", "value")]));
    let mut parser = Parser::new("'literal $VAR `cmd` '\n");
    let node = parser.next().unwrap();
    let mut used = 0;
    let text = interpreter.node_to_string(&node, &mut used);
    assert_eq!(text, Ok("literal $VAR `cmd` ".to_string()));
    assert_eq!(used, 0);
}

#[test]
fn double_quotes_expand_parameters() {
    let interpreter = Interpreter::new(env(&[("HOME", "/home/u")]));
    let mut parser = Parser::new("\"text $HOME text\"\n");
    let node = parser.next().unwrap();
    let mut used = 0;
    assert_eq!(
        interpreter.node_to_string(&node, &mut used),
        Ok("text /home/u text".to_string())
    );
}

#[test]
fn substitution_joins_stripped_outputs_with_spaces() {
    let mut interpreter = Interpreter::new(Vec::new());
    let line = "echo $(echo a; echo b)\n";

    let first = interpreter.parse_line(line);
    match first {
        Err(Stop::NeedOutput(command)) => assert_eq!(words(&command), vec!["echo", "a"]),
        other => panic!("unexpected {:?}", other),
    }
    interpreter.push_output("a\n".to_string());

    let second = interpreter.parse_line(line);
    match second {
        Err(Stop::NeedOutput(command)) => assert_eq!(words(&command), vec!["echo", "b"]),
        other => panic!("unexpected {:?}", other),
    }
    interpreter.push_output("b\n".to_string());

    let commands = interpreter.parse_line(line).unwrap();
    assert_eq!(commands.len(), 1);
    assert_eq!(words(&commands[0]), vec!["echo", "a b"]);
}

#[test]
fn unset_variable_is_empty() {
    let interpreter = Interpreter::new(env(&[("A", "1")]));
    assert_eq!(interpreter.envar("A"), "1");
    assert_eq!(interpreter.envar("B"), "");
}

#[test]
fn open_quote_asks_for_a_line() {
    let mut interpreter = Interpreter::new(Vec::new());
    assert_eq!(interpreter.parse_line("echo 'a\n"), Err(Stop::NeedLine));
    interpreter.push_line("b'\n".to_string());
    let commands = interpreter.parse_line("echo 'a\n").unwrap();
    assert_eq!(words(&commands[0]), vec!["echo", "a\nb"]);
}

#[test]
fn redirections_are_recorded() {
    let interpreter = Interpreter::new(Vec::new());
    let commands = interpreter.parse_line("cat < in.txt > out.txt\n").unwrap();
    assert_eq!(commands.len(), 1);
    let command = &commands[0];
    assert_eq!(words(command), vec!["cat"]);
    assert_eq!(
        command.files,
        vec![
            Target { path: "in.txt".to_string(), mode: OpenMode::Read },
            Target { path: "out.txt".to_string(), mode: OpenMode::Write },
        ]
    );
    assert_eq!(command.io_streams.stdin, vec![0]);
    assert_eq!(command.io_streams.stdout, vec![1]);
    assert!(command.io_streams.stderr.is_empty());
    assert_eq!(command.error, None);
}

#[test]
fn semicolon_separates_commands() {
    let interpreter = Interpreter::new(Vec::new());
    let commands = interpreter.parse_line("echo a; echo b\n").unwrap();
    assert_eq!(commands.len(), 2);
    assert_eq!(words(&commands[0]), vec!["echo", "a"]);
    assert_eq!(words(&commands[1]), vec!["echo", "b"]);
}

#[test]
fn pipe_is_unsupported() {
    let interpreter = Interpreter::new(Vec::new());
    assert_eq!(
        interpreter.parse_line("a | b\n"),
        Err(Stop::Unsupported(Operator::Pipe))
    );
}

#[test]
fn tilde_is_home_outside_double_quotes() {
    let interpreter = Interpreter::new(env(&[("HOME", "/home/u")]));
    let commands = interpreter.parse_line("echo ~ \"~\"\n").unwrap();
    assert_eq!(words(&commands[0]), vec!["echo", "/home/u", "~"]);
}

#[test]
fn parser_yields_raw_runs() {
    let mut parser = Parser::new("ab cd\n");
    assert_eq!(parser.next(), Some(Node::Raw("ab".to_string())));
    assert_eq!(parser.next(), Some(Node::WhiteSpace(' ')));
    assert_eq!(parser.next(), Some(Node::Raw("cd".to_string())));
    assert_eq!(parser.next(), Some(Node::WhiteSpace('\n')));
    assert_eq!(parser.next(), None);
}

#[test]
fn nested_substitutions_run_inside_out() {
    let mut interpreter = Interpreter::new(Vec::new());
    let line = "echo $(echo `echo a`)\n";
    match interpreter.parse_line(line) {
        Err(Stop::NeedOutput(command)) => assert_eq!(words(&command), vec!["echo", "a"]),
        other => panic!("unexpected {:?}", other),
    }
    interpreter.push_output("x\n".to_string());
    match interpreter.parse_line(line) {
        Err(Stop::NeedOutput(command)) => assert_eq!(words(&command), vec!["echo", "x"]),
        other => panic!("unexpected {:?}", other),
    }
    interpreter.push_output("y\n".to_string());
    let commands = interpreter.parse_line(line).unwrap();
    assert_eq!(words(&commands[0]), vec!["echo", "y"]);
}

#[test]
fn only_one_newline_is_stripped_from_an_output() {
    let mut interpreter = Interpreter::new(Vec::new());
    interpreter.push_output("a \n\n".to_string());
    let commands = interpreter.parse_line("echo \"$(x)\"\n").unwrap();
    assert_eq!(words(&commands[0]), vec!["echo", "a \n"]);
}

#[test]
fn substitution_result_is_not_split_into_words() {
    let mut interpreter = Interpreter::new(Vec::new());
    interpreter.push_output("a b\n".to_string());
    let commands = interpreter.parse_line("echo $(x)\n").unwrap();
    assert_eq!(words(&commands[0]), vec!["echo", "a b"]);
}

#[test]
fn reset_forgets_lines_and_outputs() {
    let mut interpreter = Interpreter::new(Vec::new());
    interpreter.push_output("a\n".to_string());
    interpreter.push_line("'\n".to_string());
    interpreter.reset();
    assert!(matches!(
        interpreter.parse_line("echo $(x)\n"),
        Err(Stop::NeedOutput(_))
    ));
    assert_eq!(interpreter.parse_line("'\n"), Err(Stop::NeedLine));
}

#[test]
fn exec_hands_out_the_outputs_in_order() {
    let mut interpreter = Interpreter::new(Vec::new());
    interpreter.push_output("one".to_string());
    let mut used = 0;
    assert_eq!(
        interpreter.exec(Command::default(), &mut used),
        Ok("one".to_string())
    );
    assert_eq!(used, 1);
    let mut command = Command::default();
    command.name = "x".to_string();
    match interpreter.exec(command, &mut used) {
        Err(Stop::NeedOutput(command)) => assert_eq!(command.name, "x"),
        other => panic!("unexpected {:?}", other),
    }
    assert_eq!(used, 1);
}

#[test]
fn parse_sequence_stops_after_a_delimiter() {
    let interpreter = Interpreter::new(Vec::new());
    let nodes = Parser::new(" a  b ;c").nodes();
    let mut pos = 0;
    let mut used = 0;
    let first = interpreter.parse_sequence(&nodes, &mut pos, &mut used).unwrap();
    assert_eq!(words(&first), vec!["a", "b"]);
    assert_eq!(pos, 7);
    let second = interpreter.parse_sequence(&nodes, &mut pos, &mut used).unwrap();
    assert_eq!(words(&second), vec!["c"]);
    assert_eq!(pos, nodes.len());
    let third = interpreter.parse_sequence(&nodes, &mut pos, &mut used).unwrap();
    assert_eq!(third, Command::default());
}

#[test]
fn quoted_parts_join_into_one_word() {
    let interpreter = Interpreter::new(env(&[("X", "1 2")]));
    let commands = interpreter.parse_line("echo a\"b $X\"'c d'e\n").unwrap();
    assert_eq!(words(&commands[0]), vec!["echo", "ab 1 2c de"]);
}

#[test]
fn empty_words_are_dropped() {
    let interpreter = Interpreter::new(Vec::new());
    let commands = interpreter.parse_line("echo \"\" $UNSET a\n").unwrap();
    assert_eq!(words(&commands[0]), vec!["echo", "a"]);
}

#[test]
fn redirection_takes_one_node_as_operand() {
    let interpreter = Interpreter::new(Vec::new());
    let commands = interpreter.parse_line("echo a >   \"x y\".txt b\n").unwrap();
    let command = &commands[0];
    assert_eq!(words(command), vec!["echo", "a", ".txt", "b"]);
    assert_eq!(
        command.files,
        vec![Target { path: "x y".to_string(), mode: OpenMode::Write }]
    );
    assert_eq!(command.io_streams.stdout, vec![0]);
}

#[test]
fn operator_at_the_end_is_ignored() {
    let interpreter = Interpreter::new(Vec::new());
    let commands = interpreter.parse_line("echo a >").unwrap();
    assert_eq!(words(&commands[0]), vec!["echo", "a"]);
    assert!(commands[0].files.is_empty());
    let commands = interpreter.parse_line("echo a |  ").unwrap();
    assert_eq!(words(&commands[0]), vec!["echo", "a"]);
}

#[test]
fn unsupported_operators_are_reported() {
    let interpreter = Interpreter::new(Vec::new());
    for (line, op) in [
        ("a & b", Operator::And),
        ("a && b", Operator::AndIf),
        ("a || b", Operator::Or),
    ] {
        assert_eq!(interpreter.parse_line(line), Err(Stop::Unsupported(op)));
    }
}

#[test]
fn operators_inside_quotes_are_text() {
    let interpreter = Interpreter::new(Vec::new());
    let commands = interpreter.parse_line("echo \"a | b && c > d\"\n").unwrap();
    assert_eq!(words(&commands[0]), vec!["echo", "a | b && c > d"]);
    assert!(commands[0].files.is_empty());
}

#[test]
fn node_texts() {
    let interpreter = Interpreter::new(Vec::new());
    let mut used = 0;
    let text = |node: Node, used: &mut usize| interpreter.node_to_string(&node, used).unwrap();
    assert_eq!(text(Node::Raw("a".to_string()), &mut used), "a");
    assert_eq!(text(Node::WhiteSpace('\t'), &mut used), "\t");
    assert_eq!(text(Node::Operator(Operator::Or), &mut used), "||");
    assert_eq!(text(Node::Delimiter, &mut used), "");
    assert_eq!(text(Node::EOF, &mut used), "\0");
    assert_eq!(text(Node::ParameterExpansion("NONE".to_string()), &mut used), "");
}

#[test]
fn empty_substitution_is_empty() {
    let interpreter = Interpreter::new(Vec::new());
    let mut used = 0;
    assert_eq!(
        interpreter.parse_substitution(&Vec::new(), &mut used),
        Ok(String::new())
    );
}

#[test]
fn first_entry_of_a_variable_counts() {
    let interpreter = Interpreter::new(env(&[("A", "1"), ("A", "2")]));
    assert_eq!(interpreter.envar("A"), "1");
}
