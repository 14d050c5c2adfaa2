use zero_shell::cmd::cat;
use zero_shell::cmd::cd;
use zero_shell::cmd::cp;
use zero_shell::cmd::mkdir;
use zero_shell::cmd::mv;
use zero_shell::cmd::pwd;
use zero_shell::cmd::rm;
use zero_shell::cmd::status;
use zero_shell::env::{find, get_or};
use zero_shell::text::{blank, join};
use zero_shell::utils::error::{clear_error, OsError, StrError};

fn strings(items: &[&str]) -> Vec<String> {
    items.iter().map(|s| s.to_string()).collect()
}

fn env(pairs: &[(&str, &str)]) -> Vec<(String, String)> {
    pairs.iter().map(|(k, v)| (k.to_string(), v.to_string())).collect()
}

#[test]
fn status_is_one_after_any_failure() {
    assert_eq!(status(0), 0);
    assert_eq!(status(1), 1);
    assert_eq!(status(5), 1);
}

#[test]
fn join_and_blank() {
    assert_eq!(join(&strings(&[]), ' '), "");
    assert_eq!(join(&strings(&["a"]), ' '), "a");
    assert_eq!(join(&strings(&["a", "", "b"]), ','), "a,,b");
    assert!(blank(""));
    assert!(blank(" \t\r\n"));
    assert!(!blank(" a "));
}

#[test]
fn variables_can_be_set_and_found() {
    let mut vars = env(&[("A", "1"), ("B", "2"), ("A", "3")]);
    assert_eq!(find(&vars, "A"), Some("1".to_string()));
    assert_eq!(find(&vars, "C"), None);
    assert_eq!(get_or(&vars, "C", "x"), "x");
    zero_shell::env::set(&mut vars, "A", "9".to_string());
    assert_eq!(vars, env(&[("A", "9"), ("B", "2"), ("A", "3")]));
    zero_shell::env::set(&mut vars, "C", "".to_string());
    assert_eq!(find(&vars, "C"), Some("".to_string()));
    assert_eq!(get_or(&vars, "C", "x"), "");
    assert_eq!(vars.len(), 4);
}

#[test]
fn join_target_path_uses_the_last_component() {
    assert_eq!(cp::join_target_path("a/b/c.txt", "dir"), "dir/c.txt");
    assert_eq!(cp::join_target_path("c.txt", "dir///"), "dir/c.txt");
    assert_eq!(cp::join_target_path("a/", "dir"), "dir/");
    assert_eq!(cp::join_target_path("x", "/"), "/x");
    assert_eq!(cp::join_target_path("x", ""), "/x");
}

#[test]
fn cp_needs_two_operands() {
    assert_eq!(
        cp::plan(&strings(&[]), cp::Probe::NotDirectory),
        Err("cp: missing file operand".to_string())
    );
    assert_eq!(
        cp::plan(&strings(&["a"]), cp::Probe::NotDirectory),
        Err("cp: missing destination file operand after 'a'".to_string())
    );
}

#[test]
fn cp_of_one_file() {
    assert_eq!(
        cp::plan(&strings(&["a", "b"]), cp::Probe::NotDirectory),
        Ok(vec![cp::Transfer { from: "a".to_string(), to: "b".to_string() }])
    );
    assert_eq!(
        cp::plan(&strings(&["a", "b"]), cp::Probe::Failed("No such file".to_string())),
        Ok(vec![cp::Transfer { from: "a".to_string(), to: "b".to_string() }])
    );
    assert_eq!(
        cp::plan(&strings(&["x/a", "d/"]), cp::Probe::Directory),
        Ok(vec![cp::Transfer { from: "x/a".to_string(), to: "d/a".to_string() }])
    );
}

#[test]
fn cp_of_several_files_needs_a_directory() {
    assert_eq!(
        cp::plan(&strings(&["a", "x/b", "d"]), cp::Probe::Directory),
        Ok(vec![
            cp::Transfer { from: "a".to_string(), to: "d/a".to_string() },
            cp::Transfer { from: "x/b".to_string(), to: "d/b".to_string() },
        ])
    );
    assert_eq!(
        cp::plan(&strings(&["a", "b", "d"]), cp::Probe::NotDirectory),
        Err("cp: target 'd': Not a directory".to_string())
    );
    assert_eq!(
        cp::plan(
            &strings(&["a", "b", "d"]),
            cp::Probe::Failed("No such file or directory".to_string())
        ),
        Err("cp: target 'd': No such file or directory".to_string())
    );
}

#[test]
fn paths_are_simplified() {
    assert_eq!(cd::simple_path("/a/b"), "/a/b");
    assert_eq!(cd::simple_path("/a/./b//c/"), "/a/b/c");
    assert_eq!(cd::simple_path("/a/b/../c"), "/a/c");
    assert_eq!(cd::simple_path("/.."), "/");
    assert_eq!(cd::simple_path("/"), "/");
    assert_eq!(cd::simple_path("///"), "/");
    assert_eq!(cd::simple_path(""), "");
    assert_eq!(cd::simple_path("a/../.."), "");
    assert_eq!(cd::simple_path("../a"), "a");
    assert_eq!(cd::simple_path("./a/b/.."), "a");
    assert_eq!(cd::simple_path("/a/../../b"), "/b");
}

#[test]
fn parent_paths() {
    assert_eq!(cd::parent_path("/a/b"), "/a");
    assert_eq!(cd::parent_path("/a"), "/");
    assert_eq!(cd::parent_path("/"), "/");
    assert_eq!(cd::parent_path("a"), "");
    assert_eq!(cd::parent_path("/a/b/"), "/a");
}

#[test]
fn cd_takes_at_most_one_operand() {
    assert_eq!(
        cd::target(&strings(&["a", "b"]), &env(&[])),
        Err("0-shell: cd: too many arguments".to_string())
    );
}

#[test]
fn cd_without_operand_goes_home() {
    let vars = env(&[("HOME", "/home/u"), ("PWD", "/tmp")]);
    assert_eq!(
        cd::target(&strings(&[]), &vars),
        Ok(cd::Change {
            path: "/home/u".to_string(),
            input: "".to_string(),
            previous: "/tmp".to_string(),
            announce: None,
        })
    );
    assert_eq!(
        cd::target(&strings(&["--"]), &vars).unwrap().path,
        "/home/u"
    );
    assert_eq!(cd::target(&strings(&[]), &env(&[])).unwrap().path, "/");
    assert_eq!(cd::target(&strings(&[]), &env(&[])).unwrap().previous, "/");
}

#[test]
fn cd_dash_goes_back_and_says_where() {
    let vars = env(&[("OLDPWD", "/var/log"), ("PWD", "/tmp")]);
    assert_eq!(
        cd::target(&strings(&["-"]), &vars),
        Ok(cd::Change {
            path: "/var/log".to_string(),
            input: "-".to_string(),
            previous: "/tmp".to_string(),
            announce: Some("/var/log".to_string()),
        })
    );
    let no_old = env(&[("PWD", "/tmp")]);
    assert_eq!(cd::target(&strings(&["-"]), &no_old).unwrap().path, "/tmp");
}

#[test]
fn cd_to_relative_and_absolute_paths() {
    let vars = env(&[("PWD", "/home/u")]);
    assert_eq!(cd::target(&strings(&["docs"]), &vars).unwrap().path, "/home/u/docs");
    assert_eq!(cd::target(&strings(&["../v/./w"]), &vars).unwrap().path, "/home/v/w");
    assert_eq!(cd::target(&strings(&["/tmp"]), &vars).unwrap().path, "/tmp");
    assert_eq!(cd::target(&strings(&[".."]), &vars).unwrap().path, "/home");
    assert_eq!(cd::target(&strings(&["/tmp"]), &vars).unwrap().input, "/tmp");
}

#[test]
fn pwd_after_cd_shows_the_new_directory() {
    let mut vars = env(&[("PWD", "/home/u"), ("HOME", "/home/u")]);
    let change = cd::target(&strings(&["/tmp"]), &vars).unwrap();
    cd::commit(&mut vars, &change);
    assert_eq!(find(&vars, "PWD"), Some("/tmp".to_string()));
    assert_eq!(find(&vars, "OLDPWD"), Some("/home/u".to_string()));
    assert_eq!(
        pwd::answer(&strings(&[]), &vars),
        pwd::Answer::Print("/tmp".to_string())
    );
    let back = cd::target(&strings(&["-"]), &vars).unwrap();
    assert_eq!(back.path, "/home/u");
}

#[test]
fn cd_complaints() {
    assert_eq!(cd::missing("x"), "0-shell: cd: x: No such file or directory");
    assert_eq!(
        cd::failed("x", "Permission denied"),
        "0-shell: cd: x: Permission denied"
    );
}

#[test]
fn pwd_answers() {
    assert_eq!(
        pwd::answer(&strings(&["x"]), &env(&[("PWD", "/")])),
        pwd::Answer::Complain("pwd: too many arguments".to_string())
    );
    assert_eq!(pwd::answer(&strings(&[]), &env(&[])), pwd::Answer::AskSystem);
    assert_eq!(pwd::status(&pwd::Answer::AskSystem), 0);
    assert_eq!(pwd::status(&pwd::Answer::Print("/".to_string())), 0);
    assert_eq!(pwd::status(&pwd::Answer::Complain("x".to_string())), 1);
}

#[test]
fn rm_reads_its_options() {
    assert_eq!(
        rm::parse(&strings(&["a", "-r", "b"])),
        Ok(rm::Request { recursive: true, paths: strings(&["a", "b"]) })
    );
    assert_eq!(
        rm::parse(&strings(&["a"])),
        Ok(rm::Request { recursive: false, paths: strings(&["a"]) })
    );
    assert_eq!(
        rm::parse(&strings(&["--r", "-rr", "---", "-", "a"])),
        Ok(rm::Request { recursive: true, paths: strings(&["-", "a"]) })
    );
}

#[test]
fn rm_takes_what_follows_two_dashes_as_paths() {
    assert_eq!(
        rm::parse(&strings(&["a", "--", "-r", "--", "b"])),
        Ok(rm::Request { recursive: false, paths: strings(&["-r", "--", "b", "a"]) })
    );
}

#[test]
fn rm_complaints() {
    let missing = Err("rm: missing operand".to_string());
    assert_eq!(rm::parse(&strings(&[])), missing);
    assert_eq!(rm::parse(&strings(&["-r"])), missing);
    assert_eq!(rm::parse(&strings(&["--"])), missing);
    assert_eq!(
        rm::parse(&strings(&["-rf", "a"])),
        Err("rm: invalid option -- 'f'".to_string())
    );
    assert_eq!(
        rm::parse(&strings(&["a", "--recursive"])),
        Err("rm: unrecognized option '--recursive'".to_string())
    );
    assert_eq!(
        rm::parse(&strings(&["-r-"])),
        Err("rm: unrecognized option '-r-'".to_string())
    );
}

#[test]
fn rm_refuses_dot_directories() {
    for path in [".", "..", "/", "a/.", "a/..", "a/./", "a/../"] {
        assert!(rm::is_refused(path), "{path}");
        assert_eq!(
            rm::step(path, rm::Kind::Directory, true),
            rm::Step::Complain(format!("rm: refusing to remove '{path}' directory"))
        );
    }
    for path in ["a", "./a", "a.", "..a", "a/.b", "//"] {
        assert!(!rm::is_refused(path), "{path}");
    }
}

#[test]
fn rm_steps() {
    assert_eq!(
        rm::step("a", rm::Kind::Missing, true),
        rm::Step::Complain("rm: cannot remove 'a': No such file or directory".to_string())
    );
    assert_eq!(
        rm::step("a", rm::Kind::Directory, false),
        rm::Step::Complain("rm: cannot remove 'a': Is a directory".to_string())
    );
    assert_eq!(rm::step("a", rm::Kind::Directory, true), rm::Step::RemoveTree);
    assert_eq!(rm::step("a", rm::Kind::Other, false), rm::Step::RemoveFile);
    assert_eq!(rm::failure("a", "Permission denied"), "rm: cannot remove 'a': Permission denied");
}

#[test]
fn mv_file_names_and_children() {
    assert_eq!(mv::file_name_of("a/b"), Some("b".to_string()));
    assert_eq!(mv::file_name_of("a/b/"), Some("b".to_string()));
    assert_eq!(mv::file_name_of("a/."), Some("a".to_string()));
    assert_eq!(mv::file_name_of("a/.."), None);
    assert_eq!(mv::file_name_of("/"), None);
    assert_eq!(mv::file_name_of(""), None);
    assert_eq!(mv::child_path("d", "a"), "d/a");
    assert_eq!(mv::child_path("d/", "a"), "d/a");
    assert_eq!(mv::child_path("", "a"), "a");
    assert_eq!(mv::child_path("d", ""), "d/");
}

#[test]
fn mv_plans() {
    assert_eq!(
        mv::plan(&strings(&[]), false),
        Err("mv: missing file operand".to_string())
    );
    assert_eq!(
        mv::plan(&strings(&["a"]), true),
        Err("mv: missing destination file operand after 'a'".to_string())
    );
    assert_eq!(
        mv::plan(&strings(&["a", "b"]), false),
        Ok(vec![mv::Item::Move("a".to_string(), "b".to_string())])
    );
    assert_eq!(
        mv::plan(&strings(&["x/a", "d"]), true),
        Ok(vec![mv::Item::Move("x/a".to_string(), "d/a".to_string())])
    );
    assert_eq!(
        mv::plan(&strings(&["..", "d"]), true),
        Ok(vec![mv::Item::Move("..".to_string(), "d/".to_string())])
    );
    assert_eq!(
        mv::plan(&strings(&["a", "b", "d"]), false),
        Err("mv: target 'd' is not a directory".to_string())
    );
    assert_eq!(
        mv::plan(&strings(&["a", "..", "x/b", "d"]), true),
        Ok(vec![
            mv::Item::Move("a".to_string(), "d/a".to_string()),
            mv::Item::Invalid("..".to_string()),
            mv::Item::Move("x/b".to_string(), "d/b".to_string()),
        ])
    );
    assert_eq!(mv::invalid(".."), "mv: invalid source path '..'");
}

#[test]
fn mv_steps() {
    assert_eq!(
        mv::step("a", "b", None, Some(false)),
        mv::Step::Complain("mv: cannot stat 'a': No such file or directory".to_string())
    );
    assert_eq!(
        mv::step("a", "b", Some(false), Some(true)),
        mv::Step::Complain("mv: cannot overwrite directory 'b' with non-directory".to_string())
    );
    assert_eq!(mv::step("a", "b", Some(true), Some(true)), mv::Step::Rename);
    assert_eq!(mv::step("a", "b", Some(false), Some(false)), mv::Step::ReplaceFile);
    assert_eq!(mv::step("a", "b", Some(true), Some(false)), mv::Step::ReplaceFile);
    assert_eq!(mv::step("a", "b", Some(false), None), mv::Step::Rename);
    assert_eq!(mv::remove_failure("b", "x"), "mv: cannot remove 'b': x");
    assert_eq!(mv::rename_failure("a", "b", "x"), "mv: cannot move 'a' to 'b': x");
}

#[test]
fn mkdir_complaints() {
    assert_eq!(mkdir::complaint(0), Some("mkdir: missing operand".to_string()));
    assert_eq!(mkdir::complaint(2), None);
    assert_eq!(
        mkdir::failure("d", "File exists"),
        "mkdir: cannot create directory 'd': File exists"
    );
}

#[test]
fn cat_sources() {
    assert_eq!(cat::sources(&strings(&[])), vec![cat::Source::Stdin]);
    assert_eq!(
        cat::sources(&strings(&["a", "-", "b"])),
        vec![
            cat::Source::File("a".to_string()),
            cat::Source::Stdin,
            cat::Source::File("b".to_string()),
        ]
    );
    assert_eq!(cat::failure("a", "No such file"), "cat: a: No such file");
}

#[test]
fn errors_are_cleared_of_their_number() {
    assert_eq!(
        clear_error("No such file or directory (os error 2)"),
        "No such file or directory"
    );
    assert_eq!(clear_error("  plain message \n"), "plain message");
    assert_eq!(clear_error("a (os error 1) b (os error 2)"), "a");
    assert_eq!(clear_error(" (os error 2)"), "");
    assert_eq!(clear_error(""), "");
    assert_eq!(clear_error("a (os erro"), "a (os erro");
}

#[test]
fn error_texts() {
    let os = OsError {
        errno: Some(2),
        description: "No such file or directory".to_string(),
        message: "No such file or directory (os error 2)".to_string(),
    };
    assert_eq!(os.str(), "No such file or directory");
    let other = OsError {
        errno: None,
        description: String::new(),
        message: "unexpected end of file".to_string(),
    };
    assert_eq!(other.str(), "unexpected end of file");
}

#[test]
fn cp_refusals() {
    assert_eq!(
        cp::refusal("a", "b", &cp::Source::Missing("No such file or directory".to_string()), false),
        Some("cp: cannot stat 'a' No such file or directory".to_string())
    );
    assert_eq!(
        cp::refusal("a", "b", &cp::Source::Directory, false),
        Some("cp: -r not specified; omitting directory 'a'".to_string())
    );
    assert_eq!(
        cp::refusal("a", "b", &cp::Source::File, true),
        Some("cp: 'a' and 'b' are the same file".to_string())
    );
    assert_eq!(cp::refusal("a", "b", &cp::Source::File, false), None);
    assert_eq!(cp::copy_failure("b", "Permission denied"), "cp: target 'b': Permission denied");
}
