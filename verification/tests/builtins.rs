use shell_core::builtins::{
    create_file_path, echo, handle_cat_content, handle_command_type, is_builtin, CatSource,
    FileRead, Output,
};
use shell_core::resolver::PathEntry;

fn strings(items: &[&str]) -> Vec<String> {
    items.iter().map(|s| s.to_string()).collect()
}

fn entry(path: &str, file_name: &str, mode: u32) -> PathEntry {
    PathEntry { path: path.to_string(), file_name: file_name.to_string(), mode }
}

fn found(path: &str, contents: &str) -> CatSource {
    CatSource { path: path.to_string(), read: FileRead::Contents(contents.to_string()) }
}

fn missing(path: &str) -> CatSource {
    CatSource { path: path.to_string(), read: FileRead::Missing }
}

#[test]
fn echo_prints_its_arguments_on_one_line() {
    assert_eq!(
        echo(&strings(&["hello", "big world"]), None),
        Output::Terminal("hello big world\n".to_string())
    );
}

#[test]
fn echo_without_arguments_prints_an_empty_line() {
    assert_eq!(echo(&strings(&[]), None), Output::Terminal("\n".to_string()));
}

#[test]
fn echo_writes_to_the_redirection_target() {
    assert_eq!(
        echo(&strings(&["hello"]), Some("out.txt".to_string())),
        Output::File { path: "out.txt".to_string(), contents: "hello\n".to_string() }
    );
}

#[test]
fn output_goes_to_the_terminal_without_a_target() {
    assert_eq!(create_file_path(None, "x y".to_string()), Output::Terminal("x y\n".to_string()));
    assert_eq!(create_file_path(None, String::new()), Output::Terminal("\n".to_string()));
}

#[test]
fn output_goes_to_the_target_file() {
    assert_eq!(
        create_file_path(Some("dir/out".to_string()), "x".to_string()),
        Output::File { path: "dir/out".to_string(), contents: "x\n".to_string() }
    );
}

#[test]
fn builtin_names_are_the_six() {
    for name in ["exit", "echo", "type", "pwd", "cd", "cat"] {
        assert!(is_builtin(name), "{}", name);
    }
    for name in ["", "ls", "Echo", "echo ", "exi", "exits", "c", "cdd"] {
        assert!(!is_builtin(name), "{:?}", name);
    }
}

#[test]
fn type_names_a_builtin() {
    assert_eq!(handle_command_type("echo", &Vec::new()), "echo is a shell builtin");
    for name in ["exit", "type", "pwd", "cd", "cat"] {
        assert_eq!(handle_command_type(name, &Vec::new()), format!("{} is a shell builtin", name));
    }
}

#[test]
fn type_reports_an_unknown_name() {
    assert_eq!(handle_command_type("zzzznotacommand", &Vec::new()), "zzzznotacommand: not found");
    let entries = vec![entry("/bin/ls", "ls", 0o755)];
    assert_eq!(handle_command_type("zzzznotacommand", &entries), "zzzznotacommand: not found");
}

#[test]
fn type_gives_the_path_of_a_program() {
    let entries = vec![entry("/bin/sh", "sh", 0o755), entry("/usr/bin/ls", "ls", 0o755)];
    assert_eq!(handle_command_type("ls", &entries), "ls is /usr/bin/ls");
}

#[test]
fn type_prefers_the_builtin_to_a_program_of_that_name() {
    let entries = vec![entry("/bin/echo", "echo", 0o755)];
    assert_eq!(handle_command_type("echo", &entries), "echo is a shell builtin");
}

#[test]
fn type_skips_files_that_are_not_executable() {
    let entries = vec![entry("/a/tool", "tool", 0o644), entry("/b/tool", "tool", 0o700)];
    assert_eq!(handle_command_type("tool", &entries), "tool is /b/tool");
    let entries = vec![entry("/a/tool", "tool", 0o644)];
    assert_eq!(handle_command_type("tool", &entries), "tool: not found");
}

#[test]
fn cat_concatenates_trimmed_contents() {
    let sources = vec![found("file1", "hello\n"), found("file2", "world\n")];
    assert_eq!(handle_cat_content(&sources), ("helloworld".to_string(), Vec::new()));
}

#[test]
fn cat_goes_on_after_a_missing_file() {
    let sources = vec![found("file1", "hello\n"), missing("file2")];
    assert_eq!(
        handle_cat_content(&sources),
        ("hello".to_string(), strings(&["cat: file2: No such file or directory"]))
    );
    let sources = vec![found("a.txt", "A\n"), missing("missing.txt"), found("b.txt", "B\n")];
    assert_eq!(
        handle_cat_content(&sources),
        ("AB".to_string(), strings(&["cat: missing.txt: No such file or directory"]))
    );
}

#[test]
fn cat_reports_each_unreadable_file_in_order() {
    let sources = vec![
        missing("x"),
        CatSource { path: "y".to_string(), read: FileRead::Failed("Is a directory".to_string()) },
        missing("z z"),
    ];
    assert_eq!(
        handle_cat_content(&sources),
        (
            String::new(),
            strings(&[
                "cat: x: No such file or directory",
                "cat: y: Is a directory",
                "cat: z z: No such file or directory",
            ])
        )
    );
}

#[test]
fn cat_trims_only_trailing_whitespace() {
    let sources = vec![found("a", "  one \n\n"), found("b", "\ttwo\t \n")];
    assert_eq!(handle_cat_content(&sources), ("  one\ttwo".to_string(), Vec::new()));
}

#[test]
fn cat_of_blank_files_prints_nothing() {
    let sources = vec![found("a", " \n"), found("b", ""), found("c", "\n\n")];
    assert_eq!(handle_cat_content(&sources), (String::new(), Vec::new()));
    assert_eq!(handle_cat_content(&Vec::new()), (String::new(), Vec::new()));
}

#[test]
fn cat_output_is_written_as_one_line() {
    let sources = vec![found("file1", "hello\n")];
    let (text, _) = handle_cat_content(&sources);
    assert_eq!(
        create_file_path(Some("copy.txt".to_string()), text),
        Output::File { path: "copy.txt".to_string(), contents: "hello\n".to_string() }
    );
}
