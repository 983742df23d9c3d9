use tidewave_core::command::System;
use tidewave_core::paths::to_relative_path;
use tidewave_core::text;

#[test]
fn numbers_are_written_in_decimal() {
    assert_eq!(text::number_text(0), "0");
    assert_eq!(text::number_text(u64::MAX), "18446744073709551615");
    assert_eq!(text::signed_text(-12), "-12");
    assert_eq!(text::signed_text(i64::MIN), "-9223372036854775808");
}

#[test]
fn numbers_are_read() {
    assert_eq!(text::parse_number("42"), Some(42));
    assert_eq!(text::parse_number("+42"), Some(42));
    assert_eq!(text::parse_number("18446744073709551615"), Some(u64::MAX));
    assert_eq!(text::parse_number("18446744073709551616"), None);
    assert_eq!(text::parse_number(""), None);
    assert_eq!(text::parse_number("+"), None);
    assert_eq!(text::parse_number("-1"), None);
    assert_eq!(text::parse_number("4 2"), None);
}

#[test]
fn white_space_is_trimmed() {
    assert_eq!(text::trim(" \t a b \n"), "a b");
    assert_eq!(text::trim("   "), "");
    assert_eq!(text::trim("\u{3000}x\u{a0}"), "x");
}

#[test]
fn words_are_split() {
    assert_eq!(text::split_words("  a\tbc \n d "), vec!["a", "bc", "d"]);
    assert!(text::split_words(" \n").is_empty());
}

#[test]
fn prefixes_and_suffixes() {
    assert!(text::has_prefix("watch:/x", "watch:"));
    assert!(!text::has_prefix("wat", "watch:"));
    assert_eq!(text::strip_prefix("watch:/x", "watch:").as_deref(), Some("/x"));
    assert!(text::has_suffix("app.localhost", ".localhost"));
    assert!(!text::has_suffix("localhost", ".localhost"));
    assert_eq!(text::trim_prefixes("././a/./b", "./"), "a/./b");
    assert_eq!(text::trim_prefixes("///a", "/"), "a");
    assert!(text::contains_text("abcd", "bc"));
    assert!(!text::contains_text("abcd", "cb"));
}

#[test]
fn lists_are_joined_and_shown() {
    let list = vec!["a".to_string(), "b\"c".to_string()];
    assert_eq!(text::join(&list, ", "), "a, b\"c");
    assert_eq!(text::show_list(&list), format!("{:?}", list));
    assert_eq!(text::show_list(&Vec::new()), "[]");
    assert!(text::list_has(&list, "a"));
    assert_eq!(text::list_without(&list, "a"), vec!["b\"c"]);
}

#[test]
fn relative_paths_go_by_components() {
    assert_eq!(to_relative_path(System::Unix, "/a//b/./c", "/a/b").as_deref(), Some("c"));
    assert_eq!(to_relative_path(System::Unix, "/a/b", "/a/b").as_deref(), Some(""));
    assert_eq!(to_relative_path(System::Unix, "/a/b/c/", "/a").as_deref(), Some("b/c"));
    assert_eq!(to_relative_path(System::Unix, "a/b", "/a"), None);
    assert_eq!(to_relative_path(System::Unix, "/a", "/a/b"), None);
}

#[test]
fn relative_paths_lead_back() {
    for (path, base) in [("/a/b/c", "/a"), ("/a//b/./c/", "/a/"), ("a/b", "a"), ("/x", "/")] {
        let relative = to_relative_path(System::Unix, path, base).unwrap();
        let joined = format!("{}/{}", base, relative);
        assert_eq!(to_relative_path(System::Unix, &joined, base), Some(relative.clone()));
        assert_eq!(to_relative_path(System::Unix, &joined, path).as_deref(), Some(""));
        assert_eq!(to_relative_path(System::Unix, path, &joined).as_deref(), Some(""));
    }
    assert_eq!(to_relative_path(System::Unix, "/ab/c", "/a"), None);
}

#[test]
fn paths_on_windows_have_prefixes_and_two_separators() {
    let relative = |path: &str, base: &str| to_relative_path(System::Windows, path, base);
    assert_eq!(relative(r"C:\w\a\b.txt", r"C:\w").as_deref(), Some(r"a\b.txt"));
    assert_eq!(relative(r"c:/w\a", r"C:\w\").as_deref(), Some("a"));
    assert_eq!(relative(r"D:\w\a", r"C:\w"), None);
    assert_eq!(relative(r"C:w\a", r"C:\w"), None);
    assert_eq!(relative(r"C:w\a", "C:").as_deref(), Some(r"w\a"));
    assert_eq!(relative(r"C:\w\.\a\", r"C:\w").as_deref(), Some("a"));
    assert_eq!(relative(r"\\?\C:\w\a", r"\\?\C:\w").as_deref(), Some("a"));
    assert_eq!(relative(r"\\?\C:\w\.\a", r"\\?\C:\w").as_deref(), Some(r".\a"));
    assert_eq!(relative(r"\\?\C:\w/a", r"\\?\C:\w"), None);
    assert_eq!(relative(r"\\?\C:\w\a", r"C:\w"), None);
    assert_eq!(relative(r"\\server\share\a", r"\\server\share").as_deref(), Some("a"));
    assert_eq!(relative(r"//server/share/a", r"\\server\share\").as_deref(), Some("a"));
    assert_eq!(relative(r"\\server\share", r"\\server\share\").as_deref(), Some(""));
    assert_eq!(relative(r"\\server\other\a", r"\\server\share"), None);
    assert_eq!(relative(r"\\?\UNC\server\share\a", r"\\?\UNC\server\share\").as_deref(), Some("a"));
    assert_eq!(relative(r"\\?\UNC\server\share\a", r"\\?\UNC\server\share").as_deref(), Some(r"\a"));
    assert_eq!(relative(r"C:.\a\b", "C:a").as_deref(), Some("b"));
    assert_eq!(relative(r"C:a\b", r"C:.\a").as_deref(), Some("b"));
    assert_eq!(relative(r"C:a", "C:.").as_deref(), Some("a"));
    assert_eq!(relative(r".\a", "a"), None);
    assert_eq!(relative(r"\\.\COM1\a", r"\\.\COM1").as_deref(), Some("a"));
    assert_eq!(relative(r"w\a", "").as_deref(), Some(r"w\a"));
    assert_eq!(relative(r"C:\a\", "").as_deref(), Some(r"C:\a"));
}
