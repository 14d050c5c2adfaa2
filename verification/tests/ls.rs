use zero_shell::cmd::ls::entries::Entries;
use zero_shell::cmd::ls::entry::{
    decimal, get_date, name_or_id, Entry, FileType, Kind, Lookup, Notice, Stat, HALF_YEAR,
};
use zero_shell::cmd::ls::ls::{run_ls, INVALID_OPTION};
use zero_shell::cmd::ls::ls_config::{order_entries, Found, LsConfig, Probe};
use zero_shell::cmd::ls::utils::{
    apply_color, get_column_len, is_directory, is_file, key_before, key_of, lower_char,
    punctuation, sort_entries, sort_lower, ColorStyle,
};

fn strings(items: &[&str]) -> Vec<String> {
    items.iter().map(|s| s.to_string()).collect()
}

fn config(args: &[&str]) -> LsConfig {
    run_ls(&strings(args)).unwrap()
}

fn stat(kind: Kind, mode: u32) -> Stat {
    Stat { kind, mode, nlink: 1, uid: 0, gid: 0, size: 0, rdev: 0, mtime: 0, blocks: 0 }
}

fn entry(path: &str, target: &str, metadata: Option<Stat>, args: &[&str]) -> Entry {
    Entry {
        metadata,
        ls_config: config(args),
        path: path.to_string(),
        sym_path: None,
        sym_metadata: None,
        target_entry: target.to_string(),
        listed_as: None,
    }
}

#[test]
fn arguments_are_split_into_flags_and_operands() {
    let config = LsConfig::new(&strings(&["-l", "a", "-", "b", "-aF"]));
    assert_eq!(config.flags, strings(&["-l", "-", "-aF"]));
    assert_eq!(config.target_paths, strings(&["a", "b"]));
    assert_eq!(config.num_args, 2);
    assert!(!config.a_flag_set && !config.l_flag_set && !config.f_flag_set);
    assert_eq!(config.status_code, 0);
    assert!(config.target_dirs.is_empty() && config.target_files.is_empty());
}

#[test]
fn flags_are_read() {
    let all = config(&["-l", "a", "-aF"]);
    assert!(all.a_flag_set && all.l_flag_set && all.f_flag_set);
    assert_eq!(all.target_paths, strings(&["a"]));
    let one = config(&["-a"]);
    assert!(one.a_flag_set && !one.l_flag_set && !one.f_flag_set);
    let dash = config(&["-"]);
    assert!(!dash.a_flag_set && !dash.l_flag_set && !dash.f_flag_set);
}

#[test]
fn current_directory_is_the_default_operand() {
    let none = config(&[]);
    assert_eq!(none.target_paths, strings(&["."]));
    assert_eq!(none.num_args, 0);
    let flags_only = config(&["-l"]);
    assert_eq!(flags_only.target_paths, strings(&["."]));
}

#[test]
fn unknown_option_is_complained_about() {
    assert_eq!(
        run_ls(&strings(&["-la", "-lx", "-y"])),
        Err("ls: invalid option -- 'x'".to_string())
    );
    assert_eq!(
        run_ls(&strings(&["--all"])),
        Err("ls: invalid option -- '-'".to_string())
    );
    assert_eq!(INVALID_OPTION, 2);
    let mut config = LsConfig::new(&strings(&["-a", "-z"]));
    let before = config.clone();
    assert!(config.parse().is_err());
    assert_eq!(config, before);
}

#[test]
fn operands_are_sorted_by_what_they_are() {
    let dir = Found { is_dir: true, is_file: false, is_symlink: false, broken: false };
    let file = Found { is_dir: false, is_file: true, is_symlink: false, broken: false };
    let link = Found { is_dir: false, is_file: false, is_symlink: true, broken: false };
    let dangling = Found { is_dir: false, is_file: false, is_symlink: true, broken: true };
    let mut config = config(&["b", "Zed", "gone", "a", "link", "Dir", "dangling", "odd"]);
    let complaints = config.extract_valid_entries(&vec![
        Probe::Found(file),
        Probe::Found(dir),
        Probe::Missing,
        Probe::Found(file),
        Probe::Found(link),
        Probe::Found(dir),
        Probe::Found(dangling),
        Probe::Failed("Permission denied (os error 13)".to_string()),
    ]);
    assert_eq!(
        complaints,
        strings(&[
            "ls: cannot access 'gone': No such file or directory",
            "Permission denied (os error 13)",
        ])
    );
    assert_eq!(config.status_code, 2);
    assert_eq!(
        config.target_paths,
        strings(&["b", "Zed", "a", "link", "Dir", "dangling"])
    );
    assert_eq!(config.target_dirs, strings(&["Dir", "link", "Zed"]));
    assert_eq!(config.target_files, strings(&["a", "b", "dangling"]));
}

#[test]
fn links_are_listed_as_they_are_in_the_long_format() {
    let link = Found { is_dir: false, is_file: false, is_symlink: true, broken: false };
    let mut config = config(&["-l", "link"]);
    let complaints = config.extract_valid_entries(&vec![Probe::Found(link)]);
    assert!(complaints.is_empty());
    assert!(config.target_dirs.is_empty());
    assert_eq!(config.target_files, strings(&["link"]));
    assert_eq!(config.status_code, 0);
}

#[test]
fn failures_set_the_status() {
    let mut config = config(&["a"]);
    config.failed();
    assert_eq!(config.status_code, 1);
    assert_eq!(
        config.denied("d"),
        "ls: cannot open directory 'd': Permission denied"
    );
    assert_eq!(config.status_code, 2);
    config.failed();
    assert_eq!(config.status_code, 2);

    let mut other = run_ls(&strings(&["x"])).unwrap();
    let complaints = other.extract_valid_entries(&vec![Probe::Failed("boom".to_string())]);
    assert_eq!(complaints, strings(&["boom"]));
    assert_eq!(other.status_code, 1);
    assert!(other.target_paths.is_empty());
}

#[test]
fn directory_or_file() {
    let plain = config(&[]);
    let long = config(&["-l"]);
    let dir = Found { is_dir: true, is_file: false, is_symlink: false, broken: false };
    let file = Found { is_dir: false, is_file: true, is_symlink: false, broken: false };
    let link = Found { is_dir: false, is_file: false, is_symlink: true, broken: false };
    assert!(is_directory(dir, true, &plain));
    assert!(!is_file(dir, true, &plain));
    assert!(is_file(file, false, &plain));
    assert!(!is_directory(file, false, &plain));
    assert!(is_directory(link, true, &plain));
    assert!(!is_file(link, true, &plain));
    assert!(!is_directory(link, true, &long));
    assert!(is_file(link, true, &long));
    assert!(is_file(link, false, &plain));
    assert!(!is_directory(link, false, &plain));
}

#[test]
fn entries_of_a_directory_are_ordered() {
    let names = strings(&["b", ".a", "C", ".Z", "a", "É"]);
    assert_eq!(
        order_entries(&names, false),
        strings(&["a", "b", "C", "É"])
    );
    assert_eq!(
        order_entries(&names, true),
        strings(&[".", "..", ".a", "a", "b", "C", ".Z", "É"])
    );
    assert_eq!(order_entries(&strings(&[]), true), strings(&[".", ".."]));
    assert_eq!(order_entries(&strings(&[".x"]), false), strings(&[]));
}

#[test]
fn names_are_sorted_without_punctuation_and_case() {
    let mut files = strings(&["b.txt", "_a", "B", "a-c", "ab", "A"]);
    sort_entries(&mut files);
    assert_eq!(files, strings(&["_a", "A", "ab", "a-c", "B", "b.txt"]));
    assert_eq!(
        sort_lower(strings(&["b", "C", "a", "B", "_"])),
        strings(&["_", "a", "b", "B", "C"])
    );
    let mut empty: Vec<String> = Vec::new();
    sort_entries(&mut empty);
    assert!(empty.is_empty());
}

#[test]
fn sort_keys() {
    assert_eq!(key_of("A-b_C.d"), vec!['a', 'b', 'c', 'd']);
    assert_eq!(key_of("É!"), vec!['É']);
    assert!(punctuation('!') && punctuation('/') && punctuation('@') && punctuation('~'));
    assert!(punctuation('[') && punctuation('`') && punctuation('{') && punctuation(':'));
    assert!(!punctuation('a') && !punctuation('0') && !punctuation(' ') && !punctuation('é'));
    assert_eq!(lower_char('A'), 'a');
    assert_eq!(lower_char('Z'), 'z');
    assert_eq!(lower_char('a'), 'a');
    assert_eq!(lower_char('@'), '@');
    assert_eq!(lower_char('['), '[');
    assert_eq!(lower_char('É'), 'É');
    let chars = |s: &str| s.chars().collect::<Vec<char>>();
    assert!(key_before(&chars(""), &chars("")));
    assert!(key_before(&chars(""), &chars("a")));
    assert!(!key_before(&chars("a"), &chars("")));
    assert!(key_before(&chars("ab"), &chars("ab")));
    assert!(key_before(&chars("ab"), &chars("abc")));
    assert!(key_before(&chars("ab"), &chars("b")));
    assert!(!key_before(&chars("b"), &chars("ab")));
    assert!(key_before(&chars("z"), &chars("é")));
}

#[test]
fn column_widths_are_in_bytes() {
    assert_eq!(get_column_len(&Vec::new()), Vec::<usize>::new());
    assert_eq!(
        get_column_len(&vec![strings(&["a", "bbb", ""]), strings(&["cc", "d", ""])]),
        vec![2, 3, 0]
    );
    assert_eq!(get_column_len(&vec![strings(&["é"])]), vec![2]);
    assert_eq!(
        get_column_len(&vec![strings(&["a"]), strings(&["bb", "ignored"])]),
        vec![2]
    );
}

#[test]
fn colours_keep_the_text() {
    for style in [
        ColorStyle::BoldGreen,
        ColorStyle::BlueBold,
        ColorStyle::BoldYellow,
        ColorStyle::CyanBold,
        ColorStyle::BoldRed,
        ColorStyle::BoldMagenta,
        ColorStyle::BrightWhite,
    ] {
        assert!(apply_color("name", style).contains("name"));
    }
}

#[test]
fn numbers_in_decimal() {
    assert_eq!(decimal(0), "0");
    assert_eq!(decimal(7), "7");
    assert_eq!(decimal(10), "10");
    assert_eq!(decimal(1234567890), "1234567890");
    assert_eq!(decimal(u64::MAX), "18446744073709551615");
    assert_eq!(name_or_id(None, 1000), "1000");
    assert_eq!(name_or_id(Some("me".to_string()), 1000), "me");
}

#[test]
fn entry_types() {
    let cases = [
        (Kind::Directory, 0o755, (FileType::Directory, 'd', '/')),
        (Kind::Symlink, 0o777, (FileType::Symlink, 'l', '@')),
        (Kind::BlockDevice, 0o660, (FileType::BlockDevice, 'b', ' ')),
        (Kind::CharDevice, 0o660, (FileType::CharDevice, 'c', ' ')),
        (Kind::Fifo, 0o644, (FileType::NamedPipe, 'p', '|')),
        (Kind::Socket, 0o755, (FileType::Socket, 's', '=')),
        (Kind::File, 0o644, (FileType::Regular, '-', ' ')),
        (Kind::File, 0o744, (FileType::Executable, '-', '*')),
        (Kind::File, 0o601, (FileType::Executable, '-', '*')),
        (Kind::Other, 0o777, (FileType::Regular, '-', ' ')),
    ];
    for (kind, mode, expected) in cases {
        assert_eq!(Entry::get_entry_type(&stat(kind, mode)), expected);
    }
}

#[test]
fn styles() {
    let style = |kind, mode| Entry::color_style_for_metadata(&stat(kind, mode));
    assert_eq!(style(Kind::File, 0o755), ColorStyle::BoldGreen);
    assert_eq!(style(Kind::Directory, 0o755), ColorStyle::BlueBold);
    assert_eq!(style(Kind::BlockDevice, 0), ColorStyle::BoldYellow);
    assert_eq!(style(Kind::CharDevice, 0), ColorStyle::BoldYellow);
    assert_eq!(style(Kind::Fifo, 0), ColorStyle::BoldYellow);
    assert_eq!(style(Kind::Symlink, 0), ColorStyle::CyanBold);
    assert_eq!(style(Kind::Socket, 0), ColorStyle::BoldMagenta);
    assert_eq!(style(Kind::File, 0o644), ColorStyle::BrightWhite);

    let mut link = entry("d/l", "d", Some(stat(Kind::Symlink, 0o777)), &[]);
    assert_eq!(link.color_name_style(), ColorStyle::BoldRed);
    link.sym_metadata = Some(stat(Kind::File, 0o644));
    assert_eq!(link.color_name_style(), ColorStyle::CyanBold);
    let dir = entry("d/x", "d", Some(stat(Kind::Directory, 0o755)), &[]);
    assert_eq!(dir.color_name_style(), ColorStyle::BlueBold);
}

#[test]
fn permissions() {
    let text = |kind, mode| entry("d/x", "d", Some(stat(kind, mode)), &[]).get_permissions();
    assert_eq!(text(Kind::Directory, 0o755), "drwxr-xr-x");
    assert_eq!(text(Kind::File, 0o644), "-rw-r--r--");
    assert_eq!(text(Kind::File, 0o000), "----------");
    assert_eq!(text(Kind::File, 0o777), "-rwxrwxrwx");
    assert_eq!(text(Kind::File, 0o4755), "-rwsr-xr-x");
    assert_eq!(text(Kind::File, 0o4644), "-rwSr--r--");
    assert_eq!(text(Kind::File, 0o2755), "-rwxr-sr-x");
    assert_eq!(text(Kind::File, 0o2745), "-rwxr-Sr-x");
    assert_eq!(text(Kind::Directory, 0o1777), "drwxrwxrwt");
    assert_eq!(text(Kind::Directory, 0o1776), "drwxrwxrwT");
    assert_eq!(text(Kind::Symlink, 0o777), "lrwxrwxrwx");
    let mut unknown = entry("d/x", "d", None, &[]);
    assert_eq!(unknown.get_permissions(), "?");
    unknown.listed_as = Some(Kind::Directory);
    assert_eq!(unknown.get_permissions(), "d");
}

#[test]
fn sizes() {
    let mut file = stat(Kind::File, 0o644);
    file.size = 1234;
    assert_eq!(
        entry("x", "", Some(file), &[]).get_size(),
        ("".to_string(), "1234".to_string())
    );
    let mut disk = stat(Kind::BlockDevice, 0o660);
    disk.rdev = (8 << 8) | 17;
    assert_eq!(
        entry("x", "", Some(disk), &[]).get_size(),
        ("8,".to_string(), "17".to_string())
    );
    let mut tty = stat(Kind::CharDevice, 0o620);
    tty.rdev = (136 << 8) | (0x12345 & 0xff) | ((0x12345 >> 8) << 20);
    assert_eq!(
        entry("x", "", Some(tty), &[]).get_size(),
        ("136,".to_string(), "74565".to_string())
    );
    let mut big = stat(Kind::CharDevice, 0o620);
    big.rdev = (0xabc << 8) | (0x12345u64 << 44);
    assert_eq!(
        entry("x", "", Some(big), &[]).get_size(),
        (format!("{},", (0x12345u64 << 12) | 0xabc), "0".to_string())
    );
    assert_eq!(
        entry("x", "", None, &[]).get_size(),
        ("".to_string(), "?".to_string())
    );
}

#[test]
fn dates() {
    let mtime = 86400 * 45 + 3600 * 13 + 60 * 7 + 9;
    assert_eq!(get_date(mtime, mtime + 100, 0), Some("Feb 15 13:07".to_string()));
    assert_eq!(
        get_date(mtime, mtime + HALF_YEAR, 0),
        Some("Feb 15  1970".to_string())
    );
    assert_eq!(
        get_date(mtime, mtime + HALF_YEAR - 1, 0),
        Some("Feb 15 13:07".to_string())
    );
    assert_eq!(get_date(mtime, mtime, 0), Some("Feb 15  1970".to_string()));
    assert_eq!(get_date(mtime, mtime, 1), Some("Feb 15 13:07".to_string()));
    assert_eq!(get_date(mtime, mtime - 1, 5), Some("Feb 15  1970".to_string()));
    assert_eq!(get_date(0, 1, 0), Some("Jan  1 00:00".to_string()));
    assert_eq!(get_date(0, i64::MAX, 0), Some("Jan  1  1970".to_string()));
    assert_eq!(get_date(0, i64::MIN, 0), Some("Jan  1  1970".to_string()));
    assert_eq!(get_date(i64::MAX, 0, 0), None);
    assert_eq!(get_date(i64::MIN, 0, 0), None);
    assert_eq!(get_date(8_200_000_000_000, 0, 0), None);
    assert!(get_date(8_199_999_999_999, 0, 0).is_some());
    assert!(get_date(-8_199_999_999_999, 0, 0).is_some());
}

#[test]
fn entry_names() {
    let name = |path: &str, target: &str| entry(path, target, None, &[]).get_entry_name();
    assert_eq!(name("/abs/dir", "/abs/dir"), "/abs/dir");
    assert_eq!(name("rel", "rel"), "rel");
    assert_eq!(name("d/.", "d"), ".");
    assert_eq!(name("d/..", "d"), "..");
    assert_eq!(name("d//..", "d"), "..");
    assert_eq!(name("d/sub/file.txt", "d"), "file.txt");
    assert_eq!(name("/", "x"), "/");
}

#[test]
fn pseudo_types() {
    let mut unknown = entry("d/x", "d", None, &[]);
    assert_eq!(unknown.get_pseudo_entry_type(), (FileType::Regular, '?', '?'));
    let cases = [
        (Kind::Symlink, (FileType::Symlink, 'l', '@')),
        (Kind::Directory, (FileType::Directory, 'd', '/')),
        (Kind::Fifo, (FileType::NamedPipe, 'p', '|')),
        (Kind::Socket, (FileType::Socket, 's', '=')),
        (Kind::CharDevice, (FileType::Socket, 'c', ' ')),
        (Kind::BlockDevice, (FileType::Socket, 'b', ' ')),
        (Kind::File, (FileType::Regular, '-', ' ')),
        (Kind::Other, (FileType::Regular, '?', '?')),
    ];
    for (kind, expected) in cases {
        unknown.listed_as = Some(kind);
        assert_eq!(unknown.get_pseudo_entry_type(), expected);
    }
    assert_eq!(
        entry("d/.", "d", None, &[]).get_pseudo_entry_type(),
        (FileType::Directory, 'd', '/')
    );
    assert_eq!(
        entry("d/..", "d", None, &[]).get_pseudo_entry_type(),
        (FileType::Directory, 'd', '/')
    );
}

#[test]
fn indicators() {
    let mark = |kind, mode, args: &[&str]| {
        entry("d/x", "d", Some(stat(kind, mode)), args).append_file_type_indicator()
    };
    assert_eq!(mark(Kind::Directory, 0o755, &["-F"]), '/');
    assert_eq!(mark(Kind::File, 0o755, &["-F"]), '*');
    assert_eq!(mark(Kind::File, 0o644, &["-F"]), ' ');
    assert_eq!(mark(Kind::Symlink, 0o777, &["-F"]), '@');
    assert_eq!(mark(Kind::Symlink, 0o777, &["-lF"]), ' ');
    let mut link = entry("d/x", "d", Some(stat(Kind::Symlink, 0o777)), &["-lF"]);
    link.sym_metadata = Some(stat(Kind::Directory, 0o755));
    assert_eq!(link.append_file_type_indicator(), '/');
    assert_eq!(entry("d/x", "d", None, &["-F"]).append_file_type_indicator(), '?');
}

#[test]
fn owner_of_an_unknown_entry_is_a_question_mark() {
    let unknown = entry("d/x", "d", None, &["-l"]);
    assert_eq!(unknown.get_user_name(), "?");
    assert_eq!(unknown.get_group_name(), "?");
    let known = entry("d/x", "d", Some(stat(Kind::File, 0o644)), &["-l"]);
    assert!(!known.get_user_name().is_empty());
    assert!(!known.get_group_name().is_empty());
}

#[test]
fn rows() {
    let mut file = stat(Kind::File, 0o755);
    file.nlink = 3;
    file.size = 42;
    let short = entry("d/run", "d", Some(file), &["-F"]);
    assert_eq!(
        short.row(
            "run".to_string(),
            "",
            "u".to_string(),
            "g".to_string(),
            "date".to_string()
        ),
        strings(&["run*"])
    );
    let mut long = entry("d/run", "d", Some(file), &["-l"]);
    assert_eq!(
        long.row(
            "run".to_string(),
            "",
            "u".to_string(),
            "g".to_string(),
            "date".to_string()
        ),
        strings(&["-rwxr-xr-x", "3", "u", "g", "", "42", "date", "run"])
    );
    long.sym_path = Some("target".to_string());
    assert_eq!(
        long.row(
            "run".to_string(),
            "target",
            "u".to_string(),
            "g".to_string(),
            "date".to_string()
        )[7],
        "run -> target"
    );
    let unknown = entry("d/x", "d", None, &["-l"]);
    assert_eq!(
        unknown.row(
            "x".to_string(),
            "",
            "?".to_string(),
            "?".to_string(),
            "".to_string()
        ),
        strings(&["?", "?", "?", "?", "?", "", "        ?", "x"])
    );
}

#[test]
fn arrays() {
    let mut file = stat(Kind::File, 0o644);
    file.mtime = 0;
    file.size = 5;
    let long = entry("d/a", "d", Some(file), &["-l"]);
    let row = long.as_array(100, 0).unwrap();
    assert_eq!(row.len(), 8);
    assert_eq!(row[0], "-rw-r--r--");
    assert_eq!(row[1], "1");
    assert_eq!(row[4], "");
    assert_eq!(row[5], "5");
    assert_eq!(row[6], "Jan  1 00:00");
    assert!(row[7].contains("a"));
    assert_eq!(long.handle_entry(100, 0), Some(row));

    let mut bad = file;
    bad.mtime = i64::MAX;
    assert_eq!(entry("d/a", "d", Some(bad), &["-l"]).as_array(100, 0), None);
    assert!(entry("d/a", "d", Some(bad), &[]).as_array(100, 0).is_some());

    let unknown = entry("d/x", "d", None, &["-l"]);
    let pseudo = unknown.as_pseudo_array();
    assert_eq!(pseudo[..7], strings(&["?", "?", "?", "?", "?", "", "        ?"])[..]);
    assert_eq!(unknown.handle_entry(0, 0), Some(pseudo));
    assert_eq!(entry("d/x", "d", None, &[]).as_pseudo_array().len(), 1);
}

#[test]
fn listing_counts_blocks() {
    let mut a = stat(Kind::File, 0o644);
    a.blocks = 8;
    let mut b = stat(Kind::File, 0o644);
    b.blocks = 3;
    let entries = vec![
        entry("d/a", "d", Some(a), &["-l"]),
        entry("d/b", "d", Some(b), &["-l"]),
        entry("d/c", "d", None, &["-l"]),
    ];
    let listing = Entries::new(&entries, config(&["-l"]), "d".to_string(), 100, 0).unwrap();
    assert_eq!(listing.total, 5);
    assert_eq!(listing.entries.len(), 3);
    assert_eq!(listing.target_entry, "d");
    assert!(listing.entries.iter().all(|row| row.len() == 8));

    let mut huge = stat(Kind::File, 0o644);
    huge.blocks = u64::MAX;
    let many = vec![
        entry("a", "", Some(huge), &[]),
        entry("b", "", Some(huge), &[]),
        entry("c", "", Some(huge), &[]),
    ];
    let listing = Entries::new(&many, config(&[]), String::new(), 0, 0).unwrap();
    assert_eq!(listing.total, u64::MAX);

    let mut bad = stat(Kind::File, 0o644);
    bad.mtime = i64::MIN;
    let failing = vec![entry("d/a", "d", Some(bad), &["-l"])];
    assert_eq!(Entries::new(&failing, config(&["-l"]), "d".to_string(), 0, 0), None);
}

#[test]
fn long_listing_is_laid_out_in_columns() {
    let listing = Entries {
        entries: vec![
            strings(&["-rw-r--r--", "1", "u", "g", "", "5", "Jan  1 00:00", "a"]),
            strings(&["drwxr-xr-x", "12", "user", "grp", "8,", "1", "Jan  1  1970", "bb"]),
        ],
        total: 4,
        ls_config: config(&["-l", "dir", "other"]),
        target_entry: "dir".to_string(),
    };
    assert_eq!(
        listing.render(),
        "dir: \n\
         total 4\n\
         -rw-r--r--  1 u    g     5 Jan  1 00:00 a\n\
         drwxr-xr-x 12 user grp 8,1 Jan  1  1970 bb\n"
    );
}

#[test]
fn empty_columns_are_left_out() {
    let listing = Entries {
        entries: vec![
            strings(&["-rw-r--r--", "1", "u", "g", "", "5", "d", "a"]),
            strings(&["-rw-r--r--", "1", "u", "g", "", "10", "d", "b"]),
        ],
        total: 0,
        ls_config: config(&["-l", "f"]),
        target_entry: String::new(),
    };
    assert_eq!(
        listing.render(),
        "-rw-r--r-- 1 u g  5 d a\n-rw-r--r-- 1 u g 10 d b\n"
    );
}

#[test]
fn short_listing_is_one_name_a_line() {
    let listing = Entries {
        entries: vec![strings(&["a"]), strings(&["bb"])],
        total: 0,
        ls_config: config(&["d"]),
        target_entry: "d".to_string(),
    };
    assert_eq!(listing.render(), "a\nbb\n");
}

#[test]
fn empty_listing() {
    let single = Entries {
        entries: Vec::new(),
        total: 0,
        ls_config: config(&["d"]),
        target_entry: "d".to_string(),
    };
    assert_eq!(single.render(), "");
    let several = Entries {
        entries: Vec::new(),
        total: 0,
        ls_config: config(&["d", "e"]),
        target_entry: "d".to_string(),
    };
    assert_eq!(several.render(), "d: \n");
    let long = Entries {
        entries: Vec::new(),
        total: 0,
        ls_config: config(&["-l", "d"]),
        target_entry: "d".to_string(),
    };
    assert_eq!(long.render(), "total 0\n");
}

#[test]
fn looking_an_entry_up() {
    let file = stat(Kind::File, 0o644);
    let mut config = config(&["-l", "d"]);
    let (found, notice) = Entry::new(
        "d/a".to_string(),
        &mut config,
        "d".to_string(),
        Lookup::Found { metadata: file, sym_path: Some("t".to_string()), sym_metadata: None },
    );
    let found = found.unwrap();
    assert_eq!(notice, None);
    assert_eq!(found.metadata, Some(file));
    assert_eq!(found.sym_path, Some("t".to_string()));
    assert_eq!(found.path, "d/a");
    assert_eq!(found.target_entry, "d");
    assert_eq!(found.ls_config, config);
    assert_eq!(config.status_code, 0);

    let (missing, notice) =
        Entry::new("d/b".to_string(), &mut config, "d".to_string(), Lookup::Missing);
    assert_eq!(missing, None);
    assert_eq!(
        notice,
        Some(Notice {
            text: "ls: cannot access 'd/b': No such file or directory".to_string(),
            to_stdout: false,
        })
    );
    assert_eq!(config.status_code, 0);

    let (denied, notice) = Entry::new(
        "d/c".to_string(),
        &mut config,
        "d".to_string(),
        Lookup::Denied { listed_as: Some(Kind::Directory) },
    );
    let denied = denied.unwrap();
    assert_eq!(denied.metadata, None);
    assert_eq!(denied.listed_as, Some(Kind::Directory));
    assert_eq!(denied.ls_config.status_code, 1);
    assert_eq!(
        notice,
        Some(Notice {
            text: "ls: cannot access 'd/c': Permission denied".to_string(),
            to_stdout: true,
        })
    );
    assert_eq!(config.status_code, 1);

    config.status_code = 2;
    let (failed, notice) = Entry::new(
        "d/e".to_string(),
        &mut config,
        "d".to_string(),
        Lookup::Failed("boom".to_string()),
    );
    assert_eq!(failed, None);
    assert_eq!(
        notice,
        Some(Notice { text: "Error while Creating the entry: boom".to_string(), to_stdout: false })
    );
    assert_eq!(config.status_code, 2);
    assert_eq!(config.snapshot(), config);
}
