use cat::config::{input_source, Config, InputSource, UsageError};
use cat::emit::{emit, open_diagnostic, Input};
use cat::render::{append_decimal, append_number_prefix, decimal_len, render_lines, LineNumberer, Numbering};

fn lines(v: &[&str]) -> Vec<String> {
    v.iter().map(|s| s.to_string()).collect()
}

fn names(v: &[&str]) -> Vec<String> {
    lines(v)
}

#[test]
fn number_all_lines_of_a_file() {
    let out = render_lines(Numbering::NumberAll, &lines(&["foo", "", "bar"]));
    assert_eq!(out, "     1\tfoo\n     2\t\n     3\tbar\n");
}

#[test]
fn number_nonblank_lines_of_a_file() {
    let out = render_lines(Numbering::NumberNonBlank, &lines(&["foo", "", "bar"]));
    assert_eq!(out, "     1\tfoo\n\n     2\tbar\n");
}

#[test]
fn no_file_argument_reads_stdin() {
    let config = Config::new(Vec::new(), false, false).unwrap();
    assert_eq!(config.files(), &names(&["-"]));
    assert!(matches!(input_source(&config.files()[0]), InputSource::Stdin));
    let out = render_lines(config.numbering(), &lines(&["hello"]));
    assert_eq!(out, "hello\n");
}

#[test]
fn both_numbering_flags_are_refused() {
    let r = Config::new(names(&["a.txt"]), true, true);
    assert_eq!(r.err(), Some(UsageError::ConflictingNumbering));
    assert_eq!(
        UsageError::ConflictingNumbering.message(),
        "the argument '--number' cannot be used with '--number-nonblank'"
    );
}

#[test]
fn single_flag_selects_numbering() {
    let c = Config::new(names(&["a.txt", "b.txt"]), true, false).unwrap();
    assert_eq!(c.numbering(), Numbering::NumberAll);
    assert!(c.number_lines());
    assert!(!c.number_nonblank_lines());
    assert_eq!(c.files(), &names(&["a.txt", "b.txt"]));
    let c = Config::new(names(&["a.txt"]), false, true).unwrap();
    assert_eq!(c.numbering(), Numbering::NumberNonBlank);
    let c = Config::new(names(&["a.txt"]), false, false).unwrap();
    assert_eq!(c.numbering(), Numbering::NoNumbering);
}

#[test]
fn named_file_is_read_from_disk() {
    match input_source(&"notes.txt".to_string()) {
        InputSource::File(p) => assert_eq!(p, "notes.txt"),
        InputSource::Stdin => panic!("a named file is not standard input"),
    }
    assert!(matches!(input_source(&"--".to_string()), InputSource::File(_)));
}

#[test]
fn unnumbered_run_is_verbatim() {
    let config = Config::new(names(&["a", "b"]), false, false).unwrap();
    let inputs: Vec<Input> = vec![Ok(lines(&["one", "", "two"])), Ok(lines(&["three"]))];
    let r = emit(&config, &inputs);
    assert_eq!(r.stdout, "one\n\ntwo\nthree\n");
    assert!(r.diagnostics.is_empty());
}

#[test]
fn counter_restarts_for_each_file() {
    let config = Config::new(names(&["a", "b"]), true, false).unwrap();
    let inputs: Vec<Input> = vec![Ok(lines(&["x", "y"])), Ok(lines(&["z"]))];
    let r = emit(&config, &inputs);
    assert_eq!(r.stdout, "     1\tx\n     2\ty\n     1\tz\n");
}

#[test]
fn nonblank_counter_skips_blank_lines_across_files() {
    let config = Config::new(names(&["a", "b"]), false, true).unwrap();
    let inputs: Vec<Input> = vec![Ok(lines(&["", "x", "", "y"])), Ok(lines(&["", "z"]))];
    let r = emit(&config, &inputs);
    assert_eq!(r.stdout, "\n     1\tx\n\n     2\ty\n\n     1\tz\n");
}

#[test]
fn missing_file_does_not_stop_the_others() {
    let config = Config::new(names(&["a", "missing.txt", "b"]), false, false).unwrap();
    let inputs: Vec<Input> = vec![
        Ok(lines(&["first"])),
        Err("No such file or directory (os error 2)".to_string()),
        Ok(lines(&["last"])),
    ];
    let r = emit(&config, &inputs);
    assert_eq!(r.stdout, "first\nlast\n");
    assert_eq!(r.diagnostics, names(&["missing.txt: No such file or directory (os error 2)"]));
}

#[test]
fn empty_source_writes_nothing() {
    assert_eq!(render_lines(Numbering::NumberAll, &Vec::new()), "");
}

#[test]
fn diagnostic_names_the_file() {
    assert_eq!(open_diagnostic("x.txt", "Permission denied"), "x.txt: Permission denied");
}

#[test]
fn wide_numbers_are_not_truncated() {
    let mut s = String::new();
    append_number_prefix(&mut s, 1234567);
    assert_eq!(s, "1234567\t");
    let mut s = String::new();
    append_number_prefix(&mut s, 123456);
    assert_eq!(s, "123456\t");
    let mut s = String::from("> ");
    append_number_prefix(&mut s, 42);
    assert_eq!(s, ">     42\t");
}

#[test]
fn decimal_digits() {
    let mut s = String::new();
    append_decimal(&mut s, 0);
    assert_eq!(s, "0");
    let mut s = String::new();
    append_decimal(&mut s, u64::MAX);
    assert_eq!(s, "18446744073709551615");
    assert_eq!(decimal_len(0), 1);
    assert_eq!(decimal_len(9), 1);
    assert_eq!(decimal_len(10), 2);
    assert_eq!(decimal_len(u64::MAX), 20);
}

#[test]
fn numberer_advances_only_on_numbered_lines() {
    let mut n = LineNumberer::new(Numbering::NumberNonBlank);
    assert!(n.has_room());
    assert_eq!(n.render_line(""), "\n");
    assert_eq!(n.render_line("a"), "     1\ta\n");
    assert_eq!(n.render_line(""), "\n");
    assert_eq!(n.render_line("b"), "     2\tb\n");
    let mut plain = LineNumberer::new(Numbering::NoNumbering);
    assert_eq!(plain.render_line("\tkeep  as is"), "\tkeep  as is\n");
}
