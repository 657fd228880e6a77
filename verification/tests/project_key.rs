use rcargo::project_key::{
    compose_key, git_origin_url, key_is_set, path_file_name, sanitize_basename, GitOutput,
};
use rcargo::project_key_for;
use rcargo::shell::{shell_quote, shell_quote_path};
use tempfile::TempDir;

fn key_at(dir: &TempDir) -> String {
    let canonical = dir.path().canonicalize().unwrap();
    project_key_for(None, &canonical.to_string_lossy(), None)
}

#[test]
fn same_path_same_key() {
    let tmp = TempDir::new().unwrap();
    let k1 = key_at(&tmp);
    let k2 = key_at(&tmp);
    assert_eq!(k1, k2);
}

#[test]
fn different_path_different_key() {
    let a = TempDir::new().unwrap();
    let b = TempDir::new().unwrap();
    assert_ne!(key_at(&a), key_at(&b));
}

#[test]
fn env_override_wins() {
    let key = project_key_for(Some("MY-Override.123".into()), ".", None);
    assert_eq!(key, "my-override.123");
}

#[test]
fn sanitize_strips_unsafe_chars() {
    assert_eq!(sanitize_basename("foo bar/baz"), "foo-bar-baz");
    assert_eq!(sanitize_basename("---"), "rcargo-project");
    assert_eq!(sanitize_basename("Hello_World-1.2"), "hello_world-1.2");
}

#[test]
fn sanitizing_twice_is_sanitizing_once() {
    for s in ["", "-", "Ünïcode", "..", "-a-", "a--b", "A.B_C", "日本", "x\u{0}y"] {
        let once = sanitize_basename(s);
        assert_eq!(sanitize_basename(&once), once);
        assert!(!once.is_empty() && !once.starts_with('-') && !once.ends_with('-'));
        assert!(once.chars().all(|c| c.is_ascii_lowercase() || c.is_ascii_digit() || "-_.".contains(c)));
        assert_eq!(shell_quote(&once), once);
        assert_eq!(shell_quote_path(&once), once);
    }
    assert_eq!(sanitize_basename("Ünïcode"), "n-code");
    assert_eq!(sanitize_basename(""), "rcargo-project");
}

#[test]
fn key_holds_the_hash_of_path_and_origin() {
    // sha256("/home/me/Foo\0") and sha256("/home/me/Foo\0git@host:foo.git")
    assert_eq!(project_key_for(None, "/home/me/Foo", None), "foo-ea25e2e37b37");
    assert_eq!(
        project_key_for(None, "/home/me/Foo", Some("git@host:foo.git".into())),
        "foo-ec4e51faafb4"
    );
    assert_eq!(
        project_key_for(None, "/home/me/Foo", Some("".into())),
        project_key_for(None, "/home/me/Foo", None)
    );
    assert_eq!(project_key_for(None, "/", None), "rcargo-unknown-ade0274f84b8");
}

#[test]
fn key_uses_the_first_six_bytes_of_the_digest() {
    let digest = [0x00, 0x1f, 0xa0, 0xff, 0x09, 0x90, 0x77];
    assert_eq!(compose_key(Some("My App".into()), &digest), "my-app-001fa0ff0990");
    assert_eq!(compose_key(None, &digest), "rcargo-unknown-001fa0ff0990");
}

#[test]
fn path_and_origin_are_kept_apart() {
    assert_ne!(
        project_key_for(None, "/a/b", Some("c".into())),
        project_key_for(None, "/a", Some("b/c".into()))
    );
    assert_ne!(
        project_key_for(None, "/w/foo", Some("o".into())),
        project_key_for(None, "/v/foo", Some("o".into()))
    );
}

#[test]
fn a_blank_key_counts_as_not_set() {
    let plain = project_key_for(None, "/home/me/Foo", None);
    assert!(!key_is_set(&None) && !key_is_set(&Some(" \t".into())));
    assert!(key_is_set(&Some(" x ".into())));
    assert_eq!(project_key_for(Some("".into()), "/home/me/Foo", None), plain);
    assert_eq!(project_key_for(Some(" \t".into()), "/home/me/Foo", None), plain);
    assert_eq!(project_key_for(Some(" x ".into()), "/home/me/Foo", None), "x");
    assert_eq!(project_key_for(Some("/".into()), "/home/me/Foo", None), "rcargo-project");
}

#[test]
fn git_origin_is_what_git_says() {
    let said = |success: bool, stdout: &str| {
        git_origin_url(Some(GitOutput { success, stdout: stdout.into() }))
    };
    assert_eq!(said(true, "git@host:foo.git\n").as_deref(), Some("git@host:foo.git"));
    assert_eq!(said(true, "\n").as_deref(), Some(""));
    assert_eq!(said(false, "git@host:foo.git\n"), None);
    assert_eq!(git_origin_url(None), None);
}

#[test]
fn file_names_are_those_of_std() {
    for s in [
        "", "/", "//", "a", "a/", "/a", "/a/b", "/a/b//", "/a/.", "/a/./.", ".", "./", "..", "/a/..",
        "/a/../.", "./a", "a/b.c", ".hidden", "/a/.b/", "...", "/..a",
    ] {
        let std = std::path::Path::new(s).file_name().map(|n| n.to_string_lossy().into_owned());
        assert_eq!(path_file_name(s), std, "path {s:?}");
    }
}

#[test]
fn a_derived_key_ends_in_twelve_digits() {
    for (path, base) in [("/w/My App", "my-app"), ("/", "rcargo-unknown"), ("/w/---", "rcargo-project")] {
        let key = project_key_for(None, path, None);
        let hash = key.strip_prefix(base).unwrap().strip_prefix('-').unwrap();
        assert_eq!(hash.len(), 12);
        assert!(hash.chars().all(|c| c.is_ascii_digit() || ('a'..='f').contains(&c)));
    }
}
