use shell_core::builtins::{echo, Output};
use shell_core::interpreter::{interpret_line, Step};
use shell_core::Command;

fn strings(items: &[&str]) -> Vec<String> {
    items.iter().map(|s| s.to_string()).collect()
}

fn run(command: Command, target: Option<&str>) -> Step {
    Step::Run { command, redirect_target: target.map(|s| s.to_string()) }
}

#[test]
fn blank_lines_are_skipped() {
    assert_eq!(interpret_line(""), Step::Skip);
    assert_eq!(interpret_line("\n"), Step::Skip);
    assert_eq!(interpret_line("  \t \r\n"), Step::Skip);
}

#[test]
fn line_end_does_not_count() {
    assert_eq!(interpret_line("pwd\n"), run(Command::Pwd, None));
    assert_eq!(interpret_line("echo hi\r\n"), run(Command::Echo(strings(&["hi"])), None));
}

#[test]
fn exit_ends_with_its_status() {
    assert_eq!(interpret_line("exit 42\n"), run(Command::Exit(42), None));
    assert_eq!(interpret_line("exit\n"), run(Command::Exit(0), None));
}

#[test]
fn malformed_exit_is_reported_and_does_not_end_the_session() {
    assert_eq!(
        interpret_line("exit abc\n"),
        Step::Report("invalid digit found in string".to_string())
    );
}

#[test]
fn type_without_target_is_reported() {
    assert_eq!(interpret_line("type\n"), Step::Report("type requires one argument".to_string()));
}

#[test]
fn redirection_target_without_a_command_is_reported() {
    assert_eq!(interpret_line(" > out\n"), Step::Report("empty command".to_string()));
}

#[test]
fn redirection_target_comes_with_the_command() {
    assert_eq!(
        interpret_line("echo hello > out.txt\n"),
        run(Command::Echo(strings(&["hello"])), Some("out.txt"))
    );
    assert_eq!(
        interpret_line("ls -l 1> listing\n"),
        run(Command::External(strings(&["ls", "-l"])), Some("listing"))
    );
}

#[test]
fn redirected_echo_writes_the_file_and_nothing_to_the_terminal() {
    match interpret_line("echo hello > out.txt\n") {
        Step::Run { command: Command::Echo(argv), redirect_target } => {
            assert_eq!(
                echo(&argv, redirect_target),
                Output::File { path: "out.txt".to_string(), contents: "hello\n".to_string() }
            );
        }
        other => panic!("{:?}", other),
    }
}

#[test]
fn marker_inside_quotes_cuts_the_command() {
    assert_eq!(
        interpret_line("echo 'a > b'\n"),
        run(Command::Echo(strings(&["a"])), Some("b'"))
    );
}
