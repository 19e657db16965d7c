use shell_core::resolver::{handle_path, is_executable, split_path_list, PathEntry};

fn entry(path: &str, file_name: &str, mode: u32) -> PathEntry {
    PathEntry { path: path.to_string(), file_name: file_name.to_string(), mode }
}

#[test]
fn search_path_is_split_at_colons() {
    assert_eq!(split_path_list("/usr/bin:/bin"), vec!["/usr/bin", "/bin"]);
    assert_eq!(split_path_list("/only"), vec!["/only"]);
}

#[test]
fn empty_pieces_of_the_search_path_are_kept() {
    assert_eq!(split_path_list(""), vec![""]);
    assert_eq!(split_path_list("a::b"), vec!["a", "", "b"]);
    assert_eq!(split_path_list(":a:"), vec!["", "a", ""]);
}

#[test]
fn splitting_agrees_with_the_splitting_of_str() {
    for path in ["", ":", "::", "a", "a:b", "/x y/z:/é:", ":/usr/local/bin:/usr/bin:/bin"] {
        let expected: Vec<String> = path.split(':').map(|s| s.to_string()).collect();
        assert_eq!(split_path_list(path), expected, "{:?}", path);
        assert_eq!(split_path_list(path).join(":"), path);
    }
}

#[test]
fn any_execute_bit_makes_a_file_executable() {
    assert!(is_executable(0o755));
    assert!(is_executable(0o100));
    assert!(is_executable(0o010));
    assert!(is_executable(0o001));
    assert!(is_executable(0o100755));
}

#[test]
fn file_without_execute_bit_is_not_executable() {
    assert!(!is_executable(0));
    assert!(!is_executable(0o644));
    assert!(!is_executable(0o666));
    assert!(!is_executable(0o100644));
    assert!(!is_executable(0o7666));
}

#[test]
fn first_matching_entry_wins() {
    let entries = vec![
        entry("/a/other", "other", 0o755),
        entry("/b/tool", "tool", 0o755),
        entry("/c/tool", "tool", 0o755),
    ];
    assert_eq!(handle_path("tool", &entries), Some("/b/tool".to_string()));
}

#[test]
fn entry_must_be_executable() {
    let entries = vec![entry("/a/tool", "tool", 0o644), entry("/b/tool", "tool", 0o711)];
    assert_eq!(handle_path("tool", &entries), Some("/b/tool".to_string()));
}

#[test]
fn file_name_must_match_exactly() {
    let entries = vec![
        entry("/a/tools", "tools", 0o755),
        entry("/a/too", "too", 0o755),
        entry("/a/Tool", "Tool", 0o755),
    ];
    assert_eq!(handle_path("tool", &entries), None);
}

#[test]
fn nothing_is_found_without_entries() {
    assert_eq!(handle_path("tool", &Vec::new()), None);
}
