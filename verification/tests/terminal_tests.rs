use polaris_core::terminal::{
    execute_command, get_help_text, interpret_command_output, join_with_spaces, platform_name,
    shell_invocation, split_command, str_eq, CommandPlan, Platform,
};

fn reply(plan: CommandPlan) -> String {
    match plan {
        CommandPlan::Reply(s) => s,
        CommandPlan::RunShell(line) => panic!("expected a reply, got shell line {:?}", line),
    }
}

fn shell_line(plan: CommandPlan) -> String {
    match plan {
        CommandPlan::RunShell(line) => line,
        CommandPlan::Reply(s) => panic!("expected a shell line, got reply {:?}", s),
    }
}

#[test]
fn empty_command_replies_with_nothing() {
    assert_eq!(reply(execute_command("")), "");
    assert_eq!(reply(execute_command("   \t  ")), "");
}

#[test]
fn help_replies_with_the_help_text() {
    let text = reply(execute_command("help"));
    assert_eq!(text, get_help_text());
    assert!(text.contains("Built-in Commands"));
    assert!(text.contains("help"));
}

#[test]
fn clear_replies_with_the_clear_sequence() {
    assert_eq!(reply(execute_command("clear")), "\x1b[2J\x1b[H");
}

#[test]
fn echo_replies_with_its_arguments_rejoined() {
    assert_eq!(reply(execute_command("echo hello world")), "hello world");
    assert_eq!(reply(execute_command("echo   spaced\tout  ")), "spaced out");
    assert_eq!(reply(execute_command("echo")), "");
}

#[test]
fn other_commands_go_to_the_shell_normalized() {
    assert_eq!(shell_line(execute_command("ls -la")), "ls -la");
    assert_eq!(shell_line(execute_command("  cargo   build  ")), "cargo build");
}

#[test]
fn split_command_separates_on_blanks() {
    assert_eq!(split_command("a b  c"), vec!["a", "b", "c"]);
    assert_eq!(split_command("\tone\n"), vec!["one"]);
    assert!(split_command("  \r\n ").is_empty());
    assert!(split_command("").is_empty());
}

#[test]
fn join_with_spaces_joins_a_suffix() {
    let words = vec!["echo".to_string(), "a".to_string(), "b".to_string()];
    assert_eq!(join_with_spaces(&words, 0), "echo a b");
    assert_eq!(join_with_spaces(&words, 1), "a b");
    assert_eq!(join_with_spaces(&words, 3), "");
}

#[test]
fn str_eq_compares_by_characters() {
    assert!(str_eq("same", "same"));
    assert!(!str_eq("same", "Same"));
    assert!(!str_eq("short", "shorter"));
    assert!(str_eq("", ""));
}

#[test]
fn shell_invocation_picks_the_platform_shell() {
    let posix = shell_invocation(Platform::Posix, "ls -la".to_string());
    assert_eq!(posix.program, "sh");
    assert_eq!(posix.flag, "-c");
    assert_eq!(posix.command_line, "ls -la");
    let windows = shell_invocation(Platform::Windows, "dir".to_string());
    assert_eq!(windows.program, "cmd");
    assert_eq!(windows.flag, "/C");
    assert_eq!(windows.command_line, "dir");
}

#[test]
fn platform_names_are_fixed() {
    assert_eq!(platform_name(Platform::Windows), "windows");
    assert_eq!(platform_name(Platform::Posix), "posix");
}

#[test]
fn successful_output_is_decoded_stdout() {
    let r = interpret_command_output(true, b"out\n", b"ignored");
    assert_eq!(r, Ok("out\n".to_string()));
}

#[test]
fn failed_output_reports_decoded_stderr() {
    let r = interpret_command_output(false, b"", b"boom");
    assert_eq!(r, Err("boom".to_string()));
}

#[test]
fn failed_output_with_empty_stderr_reports_a_fixed_message() {
    let r = interpret_command_output(false, b"", b"");
    assert_eq!(r, Err("Command failed with no output".to_string()));
}
