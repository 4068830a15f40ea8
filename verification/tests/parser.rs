use jobshell::builtins::{builtin_of, is_builtin, parse_ls_flags, Builtin};
use jobshell::fileops::{
    classify_suffix, format_entry, format_mtime, is_hidden, mode_string, mode_triplet,
    shows_entry, FileFacts, ListStyle,
};
use jobshell::text::{append_padded_left, strip_newline, u64_to_decimal};
use jobshell::grammar::{parse_command, parse_line};
use jobshell::lexer::{is_whitespace, tokenize};
use jobshell::repl::Repl;

fn words(list: &[&str]) -> Vec<String> {
    list.iter().map(|w| w.to_string()).collect()
}

#[test]
fn tokens_are_split_at_white_space() {
    assert_eq!(tokenize("ls -l  /tmp"), words(&["ls", "-l", "/tmp"]));
    assert_eq!(tokenize("  a\tb\nc  "), words(&["a", "b", "c"]));
    assert_eq!(tokenize(""), Vec::<String>::new());
    assert_eq!(tokenize("   "), Vec::<String>::new());
}

#[test]
fn quotes_keep_white_space_and_are_dropped() {
    assert_eq!(tokenize("echo \"a b\" c"), words(&["echo", "a b", "c"]));
    assert_eq!(tokenize("a\"b c\"d"), words(&["ab cd"]));
    assert_eq!(tokenize("\"\""), Vec::<String>::new());
    assert_eq!(tokenize("x \"open end"), words(&["x", "open end"]));
}

#[test]
fn white_space_is_the_unicode_property() {
    for c in [' ', '\t', '\n', '\u{0B}', '\u{0C}', '\r', '\u{85}', '\u{A0}', '\u{1680}',
        '\u{2000}', '\u{200A}', '\u{2028}', '\u{2029}', '\u{202F}', '\u{205F}', '\u{3000}'] {
        assert!(is_whitespace(c));
    }
    for c in ['a', '0', '\u{08}', '\u{0E}', '\u{200B}', '\u{1F}', '\u{FEFF}', '"'] {
        assert!(!is_whitespace(c));
    }
    for n in 0u32..0x3100 {
        if let Some(c) = char::from_u32(n) {
            assert_eq!(is_whitespace(c), c.is_whitespace());
        }
    }
}

#[test]
fn a_line_is_split_into_commands() {
    let cmds = parse_line("sleep 5 &; ls -l ;; echo \"x;y\"");
    assert_eq!(cmds.len(), 4);
    assert_eq!(cmds[0].cmd, "sleep");
    assert_eq!(cmds[0].args, words(&["5"]));
    assert!(cmds[0].background);
    assert_eq!(cmds[1].cmd, "ls");
    assert_eq!(cmds[1].args, words(&["-l"]));
    assert!(!cmds[1].background);
    assert_eq!(cmds[2].cmd, "echo");
    assert_eq!(cmds[2].args, words(&["x"]));
    assert_eq!(cmds[3].cmd, "y");
}

#[test]
fn an_empty_line_holds_no_command() {
    assert!(parse_line("").is_empty());
    assert!(parse_line("  ;  ; ").is_empty());
    assert!(parse_line("&").is_empty());
    assert!(parse_line(" &&& ").is_empty());
}

#[test]
fn an_ampersand_inside_a_part_is_a_token() {
    let cmds = parse_line(" & & ");
    assert_eq!(cmds.len(), 1);
    assert_eq!(cmds[0].cmd, "&");
    assert!(cmds[0].args.is_empty());
    assert!(cmds[0].background);
}

#[test]
fn trailing_ampersands_mark_a_background_command() {
    let c = parse_command("  make all  &&  ").unwrap();
    assert_eq!(c.cmd, "make");
    assert_eq!(c.args, words(&["all"]));
    assert!(c.background);
    let d = parse_command("a & b").unwrap();
    assert_eq!(d.cmd, "a");
    assert_eq!(d.args, words(&["&", "b"]));
    assert!(!d.background);
    assert!(parse_command("   ").is_none());
}

#[test]
fn builtins_are_known_by_name() {
    for name in ["exit", "echo", "pwd", "cd", "mkdir", "ls", "cat", "cp", "rm", "mv", "jobs",
        "fg", "bg", "kill", "sleep", "read"] {
        assert!(is_builtin(name));
    }
    assert!(!is_builtin("grep"));
    assert!(!is_builtin(""));
    assert!(!is_builtin("Jobs"));
    assert_eq!(builtin_of("fg"), Some(Builtin::Fg));
    assert_eq!(builtin_of("kill"), Some(Builtin::Kill));
    assert_eq!(builtin_of("fgx"), None);
}

#[test]
fn ls_flags_are_gathered() {
    let (long, all, classify, rest) = parse_ls_flags(&words(&["-la", "src", "-", "-x", "b"]));
    assert!(long);
    assert!(all);
    assert!(!classify);
    assert_eq!(rest, words(&["src", "-", "b"]));
    let (l, a, f, r) = parse_ls_flags(&words(&["-F"]));
    assert_eq!((l, a, f), (false, false, true));
    assert!(r.is_empty());
    let none = parse_ls_flags(&words(&["l", "a"]));
    assert_eq!((none.0, none.1, none.2), (false, false, false));
}

#[test]
fn hidden_names_start_with_a_dot() {
    assert!(is_hidden(".git"));
    assert!(is_hidden("."));
    assert!(!is_hidden("a.b"));
    assert!(!is_hidden(""));
}

#[test]
fn modes_are_written_as_letters() {
    assert_eq!(mode_triplet(7), "rwx");
    assert_eq!(mode_triplet(5), "r-x");
    assert_eq!(mode_triplet(0), "---");
    assert_eq!(mode_triplet(2), "-w-");
    assert_eq!(mode_string(true, 0o40755), "drwxr-xr-x");
    assert_eq!(mode_string(false, 0o100644), "-rw-r--r--");
    assert_eq!(mode_string(false, 0), "----------");
}

#[test]
fn classifying_marks() {
    assert_eq!(classify_suffix(true, Some(0o644)), "/");
    assert_eq!(classify_suffix(true, None), "/");
    assert_eq!(classify_suffix(false, Some(0o755)), "*");
    assert_eq!(classify_suffix(false, Some(0o644)), "");
    assert_eq!(classify_suffix(false, None), "");
}

#[test]
fn time_of_change_is_a_placeholder() {
    assert_eq!(format_mtime(0), "-------- -- --:--");
    assert_eq!(format_mtime(1700000000), "-------- -- --:--");
}

#[test]
fn only_exit_ends_the_loop() {
    let repl = Repl::new();
    assert!(repl.should_exit(-7777));
    assert!(!repl.should_exit(0));
    assert!(!repl.should_exit(127));
}

#[test]
fn listing_lines() {
    let file = FileFacts { is_dir: false, mode: 0o100755, size: 1234, exec_mode: Some(0o100755) };
    let dir = FileFacts { is_dir: true, mode: 0o40755, size: 4096, exec_mode: Some(0o40755) };
    let plain = ListStyle { long: false, all: false, classify: false };
    let long = ListStyle { long: true, all: false, classify: false };
    let marked = ListStyle { long: false, all: false, classify: true };
    let both = ListStyle { long: true, all: true, classify: true };
    assert_eq!(format_entry("run.sh", file, plain), "run.sh");
    assert_eq!(format_entry("run.sh", file, long), "-rwxr-xr-x     1234 run.sh");
    assert_eq!(format_entry("run.sh", file, marked), "run.sh*");
    assert_eq!(format_entry("src", dir, both), "drwxr-xr-x     4096 src/");
    let big = FileFacts { is_dir: false, mode: 0o644, size: 1234567890123, exec_mode: None };
    assert_eq!(format_entry("big", big, both), "-rw-r--r-- 1234567890123 big");
}

#[test]
fn hidden_names_are_shown_only_on_demand() {
    let plain = ListStyle { long: false, all: false, classify: false };
    let all = ListStyle { long: false, all: true, classify: false };
    assert!(!shows_entry(".git", plain));
    assert!(shows_entry(".git", all));
    assert!(shows_entry("src", plain));
}

#[test]
fn small_text_helpers() {
    assert_eq!(strip_newline("line\n"), "line");
    assert_eq!(strip_newline("line"), "line");
    assert_eq!(strip_newline("a\n\n"), "a\n");
    assert_eq!(strip_newline(""), "");
    assert_eq!(u64_to_decimal(u64::MAX), "18446744073709551615");
    let mut s = String::from(">");
    append_padded_left(&mut s, "42", 5);
    assert_eq!(s, ">   42");
    let mut t = String::new();
    append_padded_left(&mut t, "123456", 3);
    assert_eq!(t, "123456");
}
