use git_get::ignore::{add_to_gitignore, is_registered_in, normalize_destination};

fn register(content: &str, dest: &str) -> String {
    match add_to_gitignore(Some(content), dest) {
        Some(text) => text,
        None => content.to_string(),
    }
}

#[test]
fn absent_file_is_left_alone() {
    assert_eq!(add_to_gitignore(None, "vendor/util"), None);
}

#[test]
fn path_is_appended_with_comment() {
    assert_eq!(
        add_to_gitignore(Some("target\n"), "vendor/util"),
        Some("target\n\n# Added by git-get\nvendor/util\n".to_string())
    );
}

#[test]
fn line_break_is_added_where_the_file_has_none_at_its_end() {
    assert_eq!(
        add_to_gitignore(Some("target"), "vendor/util"),
        Some("target\n\n# Added by git-get\nvendor/util\n".to_string())
    );
}

#[test]
fn empty_file_gets_the_lines_only() {
    assert_eq!(
        add_to_gitignore(Some(""), "util"),
        Some("\n# Added by git-get\nutil\n".to_string())
    );
}

#[test]
fn leading_dot_slash_is_not_written() {
    assert_eq!(
        add_to_gitignore(Some("a\n"), "./vendor/util"),
        Some("a\n\n# Added by git-get\nvendor/util\n".to_string())
    );
    assert_eq!(
        add_to_gitignore(Some("a\n"), "././x"),
        Some("a\n\n# Added by git-get\nx\n".to_string())
    );
}

#[test]
fn registered_path_is_not_appended_again() {
    assert_eq!(add_to_gitignore(Some("target\nvendor/util\n"), "vendor/util"), None);
    assert_eq!(add_to_gitignore(Some("target\nvendor/util"), "./vendor/util"), None);
    assert_eq!(add_to_gitignore(Some("./vendor/util\n"), "vendor/util"), None);
    assert_eq!(add_to_gitignore(Some("  vendor/util \t\n"), "vendor/util"), None);
    assert_eq!(add_to_gitignore(Some("a\r\nvendor/util\r\nb\r\n"), "vendor/util"), None);
}

#[test]
fn comments_and_other_paths_do_not_register() {
    assert!(!is_registered_in("# vendor/util\n", "vendor/util"));
    assert!(!is_registered_in("vendor/util/\n", "vendor/util"));
    assert!(!is_registered_in("vendor/utilities\n", "vendor/util"));
    assert!(!is_registered_in("\n\n", "vendor/util"));
    assert!(!is_registered_in("", "vendor/util"));
    assert!(!is_registered_in("vendor\nutil\n", "vendor/util"));
    assert!(is_registered_in("x\nvendor/util", "vendor/util"));
    assert!(is_registered_in("vendor/util\nx", "vendor/util"));
}

#[test]
fn registering_twice_is_registering_once() {
    for content in ["", "target", "target\n", "# note\n\nnode_modules\n", "a\r\nb\r\n"] {
        for dest in ["util", "./vendor/util", "vendor/util", "a b"] {
            let once = register(content, dest);
            let twice = register(&once, dest);
            assert_eq!(once, twice);
            assert!(once.starts_with(content));
        }
    }
}

#[test]
fn second_registration_appends_again_for_a_comment_like_path() {
    let once = register("", "#notes");
    let twice = register(&once, "#notes");
    assert_eq!(once, "\n# Added by git-get\n#notes\n");
    assert_eq!(twice, "\n# Added by git-get\n#notes\n\n# Added by git-get\n#notes\n");
}

#[test]
fn destination_is_normalized_by_dropping_dot_slash() {
    assert_eq!(normalize_destination("./vendor/util"), "vendor/util");
    assert_eq!(normalize_destination("vendor/./util"), "vendor/./util");
    assert_eq!(normalize_destination("././"), "");
    assert_eq!(normalize_destination(".hidden"), ".hidden");
}
