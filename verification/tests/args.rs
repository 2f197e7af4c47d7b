use contained::args::{command_has_nul, parse_args, refusal_text, usage, Args, ArgsError};

fn words(line: &[&str]) -> Vec<String> {
    line.iter().map(|word| word.to_string()).collect()
}

fn accepted(line: &[&str]) -> Args {
    let line = words(line);
    assert!(!command_has_nul(&line));
    parse_args(&line).unwrap()
}

fn refused(line: &[&str]) -> String {
    let line = words(line);
    assert!(!command_has_nul(&line));
    let error = parse_args(&line).unwrap_err();
    refusal_text(&line, &error)
}

const USAGE: &str = "Usage: contained -u <uid> -m <rootfs_dir> -c <cmd> [args...]\n";

#[test]
fn usual_command_line() {
    let args = accepted(&["contained", "-m", "./rootfs", "-u", "0", "-c", "/bin/sh"]);
    assert_eq!(args.uid, 0);
    assert_eq!(args.mount_dir, "./rootfs");
    assert_eq!(args.argv, ["/bin/sh"]);
}

#[test]
fn user_defaults_to_zero() {
    let args = accepted(&["contained", "-m", "r", "-c", "true"]);
    assert_eq!(args.uid, 0);
}

#[test]
fn last_option_counts() {
    let args = accepted(&[
        "contained", "-u", "1", "-m", "a", "-u", "2", "-m", "b", "-c", "true",
    ]);
    assert_eq!(args.uid, 2);
    assert_eq!(args.mount_dir, "b");
}

#[test]
fn command_is_taken_as_it_is() {
    let args = accepted(&["contained", "-m", "r", "-c", "ls", "-u", "x", "-c", "-m", ""]);
    assert_eq!(args.argv, ["ls", "-u", "x", "-c", "-m", ""]);
    assert_eq!(args.mount_dir, "r");
}

#[test]
fn option_words_can_be_values() {
    let args = accepted(&["contained", "-m", "-c", "-c", "-c"]);
    assert_eq!(args.mount_dir, "-c");
    assert_eq!(args.argv, ["-c"]);
}

#[test]
fn malformed_command_lines() {
    assert_eq!(refused(&["contained"]), USAGE);
    assert_eq!(refused(&["contained", "-m", "r"]), USAGE);
    assert_eq!(refused(&["contained", "-c", "true"]), USAGE);
    assert_eq!(refused(&["contained", "-m", "r", "-c"]), USAGE);
    assert_eq!(refused(&["contained", "-m"]), USAGE);
    assert_eq!(refused(&["contained", "-m", "r", "-u"]), USAGE);
    assert_eq!(refused(&["contained", "-x", "-m", "r", "-c", "true"]), USAGE);
    assert_eq!(refused(&["contained", "-m", "r", "true"]), USAGE);
}

#[test]
fn bad_user() {
    let line = words(&["p", "-u", "root", "-m", "r", "-c", "true"]);
    assert!(matches!(parse_args(&line), Err(ArgsError::BadUid(text)) if text == "root"));
    assert_eq!(
        refused(&["p", "-u", "-1", "-x"]),
        "badly-formatted uid: -1\nUsage: p -u <uid> -m <rootfs_dir> -c <cmd> [args...]\n"
    );
}

#[test]
fn no_words_at_all() {
    assert_eq!(refused(&[]), USAGE);
    assert_eq!(usage("contained"), USAGE);
}

#[test]
fn zero_characters_in_the_command() {
    assert!(command_has_nul(&words(&["p", "-m", "r", "-c", "a", "b\0c"])));
    // Even where the directory is missing.
    assert!(command_has_nul(&words(&["p", "-c", "\0"])));
    // Elsewhere they are no matter.
    assert!(!command_has_nul(&words(&["p\0", "-m", "r\0", "-c", "a"])));
    // And nowhere are they found behind a malformed option.
    assert!(!command_has_nul(&words(&["p", "-x", "-c", "\0"])));
    let args = accepted(&["p", "-m", "r\0", "-c", "a"]);
    assert_eq!(args.mount_dir, "r\0");
}
