use mog::git::{GitError, GitInfo};

fn info(url: &str) -> GitInfo {
    GitInfo::new(
        "0123456789abcdef0123456789abcdef01234567".to_string(),
        Some(url.to_string()),
        0,
        Some("/home/u/repo/".to_string()),
        "/home/u/repo/sub/dir",
    )
    .unwrap()
}

#[test]
fn ssh_remote_gives_host_and_browse_url() {
    let g = info("git@github.com:owner/repo.git");
    assert_eq!(g.origin_url.host.as_deref(), Some("github.com"));
    assert_eq!(g.https_url(), Some("https://github.com/owner/repo".to_string()));
    assert_eq!(g.repository_name(), Some("repo".to_string()));
    assert_eq!(g.current_dir, "sub/dir");
    assert!(!g.is_dirty);
}

#[test]
fn https_remote_gives_same_browse_url() {
    let g = info("https://github.com/owner/repo.git");
    assert_eq!(g.https_url(), Some("https://github.com/owner/repo".to_string()));
    assert_eq!(g.repository_name(), Some("repo".to_string()));
}

#[test]
fn ssh_scheme_remote_with_port_is_read() {
    let g = info("ssh://git@github.com:22/owner/repo.git");
    assert_eq!(g.origin_url.host.as_deref(), Some("github.com"));
    assert_eq!(g.https_url(), Some("https://github.com/owner/repo".to_string()));
}

#[test]
fn deeper_path_takes_provider_reading() {
    let g = info("https://gitlab.com/group/sub/repo");
    assert_eq!(g.repository_name(), Some("sub".to_string()));
    assert_eq!(g.https_url(), Some("https://gitlab.com/group/sub".to_string()));
}

#[test]
fn path_the_provider_rejects_is_browsed_as_is() {
    let g = info("https://example.com/single");
    assert_eq!(g.repository_name(), None);
    assert_eq!(g.https_url(), Some("https://example.com/single".to_string()));
}

#[test]
fn non_ascii_local_remote_is_accepted() {
    let g = info("/srv/git/caf\u{e9}");
    assert_eq!(g.https_url(), None);
}

#[test]
fn local_remote_has_no_browse_url() {
    let g = info("/srv/git/project");
    assert_eq!(g.https_url(), None);
    assert_eq!(g.repository_name(), None);
}

#[test]
fn changed_paths_make_tree_dirty() {
    let g = GitInfo::new(
        "ab".to_string(),
        Some("git@example.com:a/b.git".to_string()),
        3,
        Some("/w".to_string()),
        "/w",
    )
    .unwrap();
    assert!(g.is_dirty);
    assert_eq!(g.current_dir, "");
}

#[test]
fn git_errors_are_distinct() {
    let e = |url: Option<&str>, wd: Option<&str>, cwd: &str| {
        GitInfo::new("ab".to_string(), url.map(|u| u.to_string()), 0, wd.map(|w| w.to_string()), cwd)
            .err()
    };
    assert_eq!(e(None, Some("/w"), "/w"), Some(GitError::OriginNotUtf8));
    assert_eq!(e(Some("a\0b"), Some("/w"), "/w"), Some(GitError::MalformedUrl));
    assert_eq!(e(Some("ssh://\u{e9}:\\x"), Some("/w"), "/w"), Some(GitError::MalformedUrl));
    assert_eq!(e(Some("ssh://github.com"), Some("/w"), "/w"), Some(GitError::MalformedUrl));
    assert_eq!(e(Some("ssh://"), Some("/w"), "/w"), Some(GitError::MalformedUrl));
    assert_eq!(e(Some("ssh://a:b@h.com/o/r"), Some("/w"), "/w"), Some(GitError::MalformedUrl));
    assert_eq!(e(Some("git@h.com:a/b.git"), None, "/w"), Some(GitError::Bare));
    assert_eq!(e(Some("git@h.com:a/b.git"), Some("/w"), "/elsewhere"), Some(GitError::OutsideWorkdir));
}
