use shell_core::context::ExecutionContext;

fn context(home: Option<&str>, path: Option<&str>) -> ExecutionContext {
    ExecutionContext::new(
        "/work".to_string(),
        home.map(|s| s.to_string()),
        path.map(|s| s.to_string()),
    )
}

#[test]
fn pwd_is_the_working_directory() {
    assert_eq!(context(None, None).pwd(), "/work");
}

#[test]
fn tilde_is_the_home_directory() {
    assert_eq!(context(Some("/home/me"), None).cd_target("~"), "/home/me");
}

#[test]
fn tilde_is_the_root_without_a_home_directory() {
    assert_eq!(context(None, None).cd_target("~"), "/");
}

#[test]
fn other_paths_are_taken_as_they_are() {
    let ctx = context(Some("/home/me"), None);
    assert_eq!(ctx.cd_target("/tmp"), "/tmp");
    assert_eq!(ctx.cd_target("~/x"), "~/x");
    assert_eq!(ctx.cd_target("a b"), "a b");
}

#[test]
fn failed_cd_leaves_the_working_directory() {
    let mut ctx = context(Some("/home/me"), Some("/bin"));
    let complaint = ctx.finish_cd("/nonexistent/path", None);
    assert_eq!(complaint, Some("cd: /nonexistent/path: No such file or directory".to_string()));
    assert_eq!(ctx, context(Some("/home/me"), Some("/bin")));
    assert_eq!(ctx.pwd(), "/work");
}

#[test]
fn failed_cd_names_the_argument_as_written() {
    let mut ctx = context(Some("/gone"), None);
    assert_eq!(ctx.cd_target("~"), "/gone");
    assert_eq!(ctx.finish_cd("~", None), Some("cd: ~: No such file or directory".to_string()));
}

#[test]
fn successful_cd_changes_the_working_directory_only() {
    let mut ctx = context(Some("/home/me"), Some("/bin"));
    assert_eq!(ctx.finish_cd("/tmp", Some("/private/tmp".to_string())), None);
    assert_eq!(ctx.pwd(), "/private/tmp");
    assert_eq!(ctx.home, Some("/home/me".to_string()));
    assert_eq!(ctx.path, Some("/bin".to_string()));
}

#[test]
fn search_directories_come_from_the_search_path() {
    assert_eq!(context(None, Some("/usr/bin:/bin")).search_dirs(), vec!["/usr/bin", "/bin"]);
    assert_eq!(context(None, Some("")).search_dirs(), vec![""]);
}

#[test]
fn no_search_path_means_no_directories() {
    assert_eq!(context(None, None).search_dirs(), Vec::<String>::new());
}
