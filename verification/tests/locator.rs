use git_get::error::RetrievalError;
use git_get::locator::{build_repo_url, CloneTarget};

fn target(url: &str) -> CloneTarget {
    CloneTarget { clone_url: url.to_string() }
}

fn invalid(input: &str) -> RetrievalError {
    RetrievalError::InvalidLocator { input: input.to_string() }
}

#[test]
fn short_form_becomes_canonical_url() {
    assert_eq!(build_repo_url("acme/tools"), Ok(target("https://github.com/acme/tools.git")));
    assert_eq!(build_repo_url("o/r"), Ok(target("https://github.com/o/r.git")));
}

#[test]
fn full_urls_pass_unchanged() {
    assert_eq!(
        build_repo_url("https://github.com/acme/tools.git"),
        Ok(target("https://github.com/acme/tools.git"))
    );
    assert_eq!(build_repo_url("https://example.org/x"), Ok(target("https://example.org/x")));
    assert_eq!(
        build_repo_url("git@github.com:acme/tools.git"),
        Ok(target("git@github.com:acme/tools.git"))
    );
    assert_eq!(build_repo_url("git@host/repo"), Ok(target("git@host/repo")));
}

#[test]
fn normalizing_twice_changes_nothing() {
    for locator in ["acme/tools", "https://github.com/acme/tools.git", "git@github.com:a/b.git"] {
        let once = build_repo_url(locator).unwrap();
        let twice = build_repo_url(&once.clone_url).unwrap();
        assert_eq!(once, twice);
    }
}

#[test]
fn other_shapes_are_invalid() {
    for locator in ["", "acme", "a/b/c", "/tools", "acme/", "/", "http://github.com/a/b", "a//b"] {
        assert_eq!(build_repo_url(locator), Err(invalid(locator)));
    }
}

#[test]
fn same_segments_give_same_url() {
    assert_eq!(build_repo_url("acme/tools"), build_repo_url("acme/tools"));
    assert_ne!(build_repo_url("acme/tools"), build_repo_url("acme/tool"));
}
