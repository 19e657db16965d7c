use shell_core::parse_shell_arguments;
use shell_core::text::{is_space, join_arguments, to_chars};

fn strings(items: &[&str]) -> Vec<String> {
    items.iter().map(|s| s.to_string()).collect()
}

#[test]
fn quoted_regions_keep_their_spaces() {
    assert_eq!(parse_shell_arguments("'a b' \"c d\" e"), strings(&["a b", "c d", "e"]));
}

#[test]
fn command_word_is_a_token_like_any_other() {
    assert_eq!(
        parse_shell_arguments("echo 'a b' \"c d\" e"),
        strings(&["echo", "a b", "c d", "e"])
    );
}

#[test]
fn backslash_escapes_a_space_outside_quotes() {
    assert_eq!(parse_shell_arguments("a\\ b"), strings(&["a b"]));
}

#[test]
fn backslash_escapes_a_quote_inside_double_quotes() {
    assert_eq!(parse_shell_arguments("\"a\\\"b\""), strings(&["a\"b"]));
}

#[test]
fn backslash_escapes_a_backslash_inside_double_quotes() {
    assert_eq!(parse_shell_arguments("\"a\\\\b\""), strings(&["a\\b"]));
}

#[test]
fn backslash_stays_before_other_characters_inside_double_quotes() {
    assert_eq!(parse_shell_arguments("\"a\\nb\""), strings(&["a\\nb"]));
    assert_eq!(parse_shell_arguments("\"a\\'b\""), strings(&["a\\'b"]));
}

#[test]
fn nothing_is_special_inside_single_quotes() {
    assert_eq!(parse_shell_arguments("'a\\b \"c\"'"), strings(&["a\\b \"c\""]));
}

#[test]
fn backslash_escapes_quotes_outside_quotes() {
    assert_eq!(parse_shell_arguments("\\'a \\\"b"), strings(&["'a", "\"b"]));
}

#[test]
fn quotes_do_not_split_a_word() {
    assert_eq!(parse_shell_arguments("a'b'c"), strings(&["abc"]));
    assert_eq!(parse_shell_arguments("a\"b c\"d e"), strings(&["ab cd", "e"]));
}

#[test]
fn plain_words_come_back_unchanged() {
    let words = strings(&["ls", "-la", "/tmp", "x=1"]);
    assert_eq!(parse_shell_arguments(&join_arguments(&words)), words);
    assert_eq!(parse_shell_arguments("ls -la /tmp x=1"), words);
}

#[test]
fn whitespace_runs_make_no_empty_tokens() {
    assert_eq!(parse_shell_arguments("  a   b  "), strings(&["a", "b"]));
    assert_eq!(parse_shell_arguments("a\tb\n c"), strings(&["a", "b", "c"]));
    assert_eq!(parse_shell_arguments("a\u{a0}b\u{3000}c"), strings(&["a", "b", "c"]));
}

#[test]
fn empty_input_has_no_tokens() {
    assert_eq!(parse_shell_arguments(""), Vec::<String>::new());
    assert_eq!(parse_shell_arguments("   "), Vec::<String>::new());
}

#[test]
fn empty_quotes_make_no_token() {
    assert_eq!(parse_shell_arguments("''"), Vec::<String>::new());
    assert_eq!(parse_shell_arguments("a '' \"\" b"), strings(&["a", "b"]));
}

#[test]
fn unterminated_quote_closes_at_the_end() {
    assert_eq!(parse_shell_arguments("'abc def"), strings(&["abc def"]));
    assert_eq!(parse_shell_arguments("x \"abc  "), strings(&["x", "abc  "]));
}

#[test]
fn trailing_backslash_is_dropped() {
    assert_eq!(parse_shell_arguments("abc\\"), strings(&["abc"]));
    assert_eq!(parse_shell_arguments("\\"), Vec::<String>::new());
    assert_eq!(parse_shell_arguments("\"abc\\"), strings(&["abc"]));
}

#[test]
fn characters_beyond_ascii_are_kept_whole() {
    assert_eq!(parse_shell_arguments("héllo 'wörld ✓'"), strings(&["héllo", "wörld ✓"]));
}

#[test]
fn no_token_is_empty() {
    for line in ["", " ", "''", "a '' b", "\\", "\"\" x \"\"", "a\\ ", "' '"] {
        for token in parse_shell_arguments(line) {
            assert!(!token.is_empty(), "empty token in {:?}", line);
        }
    }
}

#[test]
fn word_separators_are_the_white_space_characters() {
    let mut code: u32 = 0;
    while code <= 0x10FFFF {
        if let Some(c) = char::from_u32(code) {
            assert_eq!(is_space(c), c.is_whitespace(), "U+{:04X}", code);
        }
        code += 1;
    }
}

#[test]
fn to_chars_lists_the_characters() {
    assert_eq!(to_chars("aé✓"), vec!['a', 'é', '✓']);
    assert_eq!(to_chars(""), Vec::<char>::new());
}

#[test]
fn join_arguments_puts_single_spaces_between() {
    assert_eq!(join_arguments(&strings(&["a", "b c", "d"])), "a b c d");
    assert_eq!(join_arguments(&strings(&["a"])), "a");
    assert_eq!(join_arguments(&strings(&[])), "");
    assert_eq!(join_arguments(&strings(&["", ""])), " ");
}
