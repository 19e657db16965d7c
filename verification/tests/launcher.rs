use shell_core::context::ExecutionContext;
use shell_core::launcher::{launch_plan, launch_result, ChildOutcome, Forwarded, LaunchPlan};

fn strings(items: &[&str]) -> Vec<String> {
    items.iter().map(|s| s.to_string()).collect()
}

fn context() -> ExecutionContext {
    ExecutionContext::new("/work".to_string(), None, None)
}

fn plan(program: &str, target: Option<&str>) -> LaunchPlan {
    launch_plan(&strings(&[program, "x"]), target.map(|s| s.to_string()), &context())
}

fn finished(stdout: &str, stderr: &str) -> ChildOutcome {
    ChildOutcome::Finished { stdout: stdout.to_string(), stderr: stderr.to_string() }
}

#[test]
fn first_word_is_the_program_and_the_rest_its_arguments() {
    assert_eq!(
        launch_plan(&strings(&["ls", "-l", "my dir"]), None, &context()),
        LaunchPlan {
            program: "ls".to_string(),
            arguments: strings(&["-l", "my dir"]),
            directory: "/work".to_string(),
            stdout_file: None,
        }
    );
}

#[test]
fn program_alone_has_no_arguments() {
    assert_eq!(
        launch_plan(&strings(&["true"]), None, &context()),
        LaunchPlan {
            program: "true".to_string(),
            arguments: Vec::new(),
            directory: "/work".to_string(),
            stdout_file: None,
        }
    );
}

#[test]
fn redirection_target_receives_the_standard_output() {
    assert_eq!(
        launch_plan(&strings(&["ls", "-l"]), Some("listing".to_string()), &context()),
        LaunchPlan {
            program: "ls".to_string(),
            arguments: strings(&["-l"]),
            directory: "/work".to_string(),
            stdout_file: Some("listing".to_string()),
        }
    );
}

#[test]
fn program_runs_in_the_working_directory() {
    let mut ctx = context();
    assert_eq!(ctx.finish_cd("/tmp", Some("/tmp".to_string())), None);
    assert_eq!(launch_plan(&strings(&["ls"]), None, &ctx).directory, "/tmp");
}

#[test]
fn program_that_cannot_be_started_is_reported() {
    assert_eq!(
        launch_result(&plan("nosuchprogram", None), ChildOutcome::NotStarted),
        Forwarded { stdout: String::new(), stderr: "nosuchprogram: command not found\n".to_string() }
    );
    assert_eq!(
        launch_result(&plan("nosuchprogram", Some("out")), ChildOutcome::NotStarted),
        Forwarded { stdout: String::new(), stderr: "nosuchprogram: command not found\n".to_string() }
    );
}

#[test]
fn both_streams_are_passed_on_without_redirection() {
    assert_eq!(
        launch_result(&plan("prog", None), finished("out\n", "err\n")),
        Forwarded { stdout: "out\n".to_string(), stderr: "err\n".to_string() }
    );
}

#[test]
fn standard_output_is_held_back_under_redirection() {
    assert_eq!(
        launch_result(&plan("prog", Some("out.txt")), finished("out\n", "err\n")),
        Forwarded { stdout: String::new(), stderr: "err\n".to_string() }
    );
}

#[test]
fn silent_program_passes_nothing_on() {
    assert_eq!(
        launch_result(&plan("true", None), finished("", "")),
        Forwarded { stdout: String::new(), stderr: String::new() }
    );
}
