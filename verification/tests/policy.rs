use std::path::{Component, Path, PathBuf};

use rust_mcp_git::paths::{
    clean_path, clean_paths, clean_relative_path, clean_repo_path, PathStyle,
};
use rust_mcp_git::policy::{
    conventional_merge_message, expected_release_subject, is_conventional_commit_subject,
    is_release_commit_subject, validate_commit_message, validate_conventional_commit_message,
    validate_object_id, validate_refspec, validate_revision, validate_semver_core, validate_token,
};

fn error(result: Result<(), String>) -> String {
    result.unwrap_err()
}

#[test]
fn validates_paths_tokens_conventional_and_release_versions() {
    assert_eq!(
        clean_relative_path("studio/src/main.rs", PathStyle::Unix).unwrap(),
        "studio/src/main.rs"
    );
    assert_eq!(clean_repo_path(".", PathStyle::Unix).unwrap(), ".");
    assert!(clean_relative_path("../secret", PathStyle::Unix).is_err());
    assert!(clean_relative_path("/etc/passwd", PathStyle::Unix).is_err());
    assert!(validate_revision("--help").is_err());
    assert!(validate_token("branch", "main\n--help").is_err());
    assert!(validate_refspec("+HEAD:main").is_err());
    assert!(is_conventional_commit_subject("feat: add history plan"));
    assert!(is_conventional_commit_subject(
        "fix(git)!: tighten rewrite safety"
    ));
    assert!(!is_conventional_commit_subject("Add history plan"));
    assert!(!is_conventional_commit_subject("feat(): invalid"));
    assert!(validate_semver_core("0.12.0").is_ok());
    assert!(validate_semver_core("01.2.3").is_err());
    assert!(is_release_commit_subject("chore(release): prepare v0.12.0"));
}

#[test]
fn paths_are_cleaned_part_by_part() {
    assert_eq!(clean_relative_path("a//b/./c", PathStyle::Unix).unwrap(), "a/b/c");
    assert_eq!(clean_relative_path("./a/", PathStyle::Unix).unwrap(), "a");
    assert_eq!(clean_repo_path("nested/repo", PathStyle::Unix).unwrap(), "nested/repo");
    assert_eq!(clean_path(".", true, PathStyle::Unix).unwrap(), ".");
    assert_eq!(
        clean_relative_path("a/../b", PathStyle::Unix).unwrap_err(),
        "parent traversal (`..`) is not allowed"
    );
    assert_eq!(
        clean_relative_path("/a", PathStyle::Unix).unwrap_err(),
        "absolute paths are not allowed"
    );
    assert_eq!(
        clean_relative_path("", PathStyle::Unix).unwrap_err(),
        "path must be a non-empty, bounded path without control characters"
    );
    assert_eq!(
        clean_repo_path("a\u{7}b", PathStyle::Unix).unwrap_err(),
        "repo must be a non-empty, bounded path without control characters"
    );
    let long: String = "a".repeat(4097);
    assert!(clean_relative_path(&long, PathStyle::Unix).is_err());
    let fits: String = "a".repeat(4096);
    assert_eq!(clean_relative_path(&fits, PathStyle::Unix).unwrap(), fits);
}

#[test]
fn a_lone_dot_names_a_repository_only() {
    assert_eq!(
        clean_relative_path(".", PathStyle::Unix).unwrap_err(),
        "path must resolve below the configured root"
    );
    assert_eq!(clean_repo_path(".", PathStyle::Unix).unwrap(), ".");
    assert!(clean_repo_path("./.", PathStyle::Unix).is_err());
}

#[test]
fn a_cleaned_path_stays_as_it_is() {
    for raw in ["a/b", "x", "./deep//er/./path", "repo"] {
        let once: String = clean_relative_path(raw, PathStyle::Unix).unwrap();
        assert_eq!(clean_relative_path(&once, PathStyle::Unix).unwrap(), once);
        assert!(!once.starts_with('/'));
        assert!(once.split('/').all(|part| part != ".." && part != "."));
    }
}

/// The normal form of a path, by the standard library of a Unix system.
fn by_the_standard(raw: &str, allow_dot: bool) -> Option<String> {
    let mut cleaned = PathBuf::new();
    for component in Path::new(raw).components() {
        match component {
            Component::Normal(part) => cleaned.push(part),
            Component::CurDir => {}
            _ => return None,
        }
    }
    if cleaned.as_os_str().is_empty() {
        return if allow_dot && raw == "." { Some(".".to_owned()) } else { None };
    }
    Some(cleaned.to_string_lossy().into_owned())
}

#[test]
fn unix_paths_are_taken_apart_as_by_the_standard() {
    let pieces = ["", ".", "..", "a", "b c", "\\", "a\\b", "..\\x", "C:", "é"];
    for first in pieces {
        for second in pieces {
            for third in pieces {
                for raw in [
                    first.to_owned(),
                    format!("{first}/{second}"),
                    format!("{first}/{second}/{third}"),
                ] {
                    for allow_dot in [false, true] {
                        assert_eq!(
                            clean_path(&raw, allow_dot, PathStyle::Unix).ok(),
                            by_the_standard(&raw, allow_dot),
                            "{raw:?}"
                        );
                    }
                }
            }
        }
    }
}

#[test]
fn windows_paths_have_two_separators() {
    let clean = |raw: &str| clean_relative_path(raw, PathStyle::Windows);
    assert_eq!(clean("a\\b/c").unwrap(), "a\\b\\c");
    assert_eq!(clean(".\\a\\\\.\\b\\").unwrap(), "a\\b");
    assert_eq!(clean("1:x").unwrap(), "1:x");
    for raw in ["..", "..\\x", "a\\..\\b", "a/../b", "a\\.."] {
        assert_eq!(clean(raw).unwrap_err(), "parent traversal (`..`) is not allowed", "{raw:?}");
    }
    assert_eq!(clean(".\\.").unwrap_err(), "path must resolve below the configured root");
    assert_eq!(clean_repo_path(".", PathStyle::Windows).unwrap(), ".");
    let once = clean("deep\\er/path").unwrap();
    assert_eq!(clean(&once).unwrap(), once);
}

#[test]
fn windows_paths_may_name_drives() {
    let clean = |raw: &str| clean_relative_path(raw, PathStyle::Windows);
    for raw in ["/a", "\\a", "\\\\server\\share\\a", "\\\\?\\C:\\a", "C:\\a", "c:/a", "C:a", "z:", "C:.."] {
        assert_eq!(clean(raw).unwrap_err(), "absolute paths are not allowed", "{raw:?}");
    }
    assert_eq!(clean("a\\C:").unwrap(), "C:");
    assert_eq!(clean("a/C:/b/c").unwrap(), "C:b\\c");
    assert_eq!(clean("a/C:d/b").unwrap(), "C:d\\b");
    assert_eq!(clean_relative_path("C:a", PathStyle::Unix).unwrap(), "C:a");
}

#[test]
fn lists_of_paths_are_bounded() {
    assert_eq!(
        clean_paths(&Vec::new(), PathStyle::Unix).unwrap_err(),
        "at least one path is required"
    );
    let many: Vec<String> = (0..1025).map(|i| format!("f{i}")).collect();
    assert_eq!(clean_paths(&many, PathStyle::Unix).unwrap_err(), "too many paths");
    let most: Vec<String> = (0..1024).map(|i| format!("f{i}")).collect();
    assert_eq!(clean_paths(&most, PathStyle::Unix).unwrap(), most);
    assert_eq!(
        clean_paths(&vec!["./a".to_owned(), "b//c".to_owned()], PathStyle::Unix).unwrap(),
        vec!["a".to_owned(), "b/c".to_owned()]
    );
    assert!(clean_paths(&vec!["a".to_owned(), "../b".to_owned()], PathStyle::Unix).is_err());
}

#[test]
fn tokens_are_short_and_plain() {
    assert!(validate_token("remote", "origin").is_ok());
    assert_eq!(error(validate_token("remote", "")), "invalid remote");
    assert_eq!(error(validate_token("branch", "-x")), "invalid branch");
    assert_eq!(error(validate_revision("a\tb")), "invalid revision");
    assert!(validate_token("branch", "feature/ünicode").is_ok());
    assert!(validate_token("branch", &"a".repeat(1024)).is_ok());
    assert!(validate_token("branch", &"a".repeat(1025)).is_err());
    assert!(validate_token("branch", &"ü".repeat(512)).is_ok());
    assert!(validate_token("branch", &"ü".repeat(513)).is_err());
}

#[test]
fn refspecs_do_not_force() {
    assert!(validate_refspec("HEAD:refs/heads/topic").is_ok());
    assert_eq!(
        error(validate_refspec("+HEAD:main")),
        "force push refspecs are not allowed"
    );
    assert_eq!(
        error(validate_refspec("a--force")),
        "force push refspecs are not allowed"
    );
    assert_eq!(error(validate_refspec("--force")), "invalid refspec");
}

#[test]
fn object_ids_are_forty_or_sixty_four_hex_digits() {
    assert!(validate_object_id(&"0123456789abcdefABCD".repeat(2)).is_ok());
    assert!(validate_object_id(&"a".repeat(64)).is_ok());
    assert!(validate_object_id(&"a".repeat(39)).is_err());
    assert!(validate_object_id(&"a".repeat(41)).is_err());
    assert!(validate_object_id(&"a".repeat(65)).is_err());
    assert_eq!(
        error(validate_object_id(&"g".repeat(40))),
        "invalid object id returned by Git"
    );
}

#[test]
fn commit_messages_are_bounded_and_not_blank() {
    assert!(validate_commit_message("any text\n\nwith a body").is_ok());
    assert_eq!(
        error(validate_commit_message(" \n")),
        "commit message must be 1..16384 bytes and must not contain NUL or CR"
    );
    assert!(validate_commit_message("nul\0").is_err());
    assert!(validate_commit_message("a\rb").is_err());
    assert!(validate_commit_message(&"a".repeat(16_384)).is_ok());
    assert!(validate_commit_message(&"a".repeat(16_385)).is_err());
    assert!(validate_conventional_commit_message("feat: x\n\nbody").is_ok());
    assert_eq!(
        error(validate_conventional_commit_message("body first")),
        "commit subject must follow Conventional Commits 1.0.0"
    );
    assert!(validate_conventional_commit_message("").is_err());
}

#[test]
fn conventional_subjects_have_a_kind_and_a_description() {
    for kind in [
        "feat", "fix", "docs", "test", "refactor", "perf", "build", "ci", "chore", "style", "revert",
    ] {
        assert!(is_conventional_commit_subject(&format!("{kind}: x")), "{kind}");
        assert!(is_conventional_commit_subject(&format!("{kind}!: x")), "{kind}");
        assert!(is_conventional_commit_subject(&format!("{kind}(a-b): x")), "{kind}");
        assert!(!is_conventional_commit_subject(&format!("{kind}x: x")), "{kind}");
    }
    assert!(!is_conventional_commit_subject("feat:x"));
    assert!(!is_conventional_commit_subject("feat: "));
    assert!(!is_conventional_commit_subject("Feat: x"));
    assert!(!is_conventional_commit_subject("feat(a: x"));
    assert!(!is_conventional_commit_subject(""));
}

#[test]
fn versions_have_three_plain_numbers() {
    for good in ["0.0.0", "1.2.3", "10.20.30"] {
        assert!(validate_semver_core(good).is_ok(), "{good}");
    }
    assert_eq!(
        error(validate_semver_core("1.2")),
        "version must be plain MAJOR.MINOR.PATCH with numeric components and no leading zeroes"
    );
    for bad in ["1.2", "1.2.3.4", "1.02.3", "1.2.x", "", "1..3", "v1.2.3", "1.2.3-rc"] {
        assert!(validate_semver_core(bad).is_err(), "{bad}");
    }
    assert_eq!(
        expected_release_subject("1.2.3"),
        "chore(release): prepare v1.2.3"
    );
    assert!(is_release_commit_subject(&expected_release_subject("1.2.3")));
    assert_ne!(expected_release_subject("1.2.3"), expected_release_subject("1.2.30"));
    assert!(!is_release_commit_subject("chore(release): prepare v1.2"));
    assert!(is_conventional_commit_subject(&expected_release_subject("7.0.1")));
}

#[test]
fn merge_messages_follow_from_branch_names() {
    assert_eq!(
        conventional_merge_message("feature/foo"),
        "feat: merge feature/foo"
    );
    assert_eq!(conventional_merge_message("fix/bar"), "fix: merge fix/bar");
    assert_eq!(conventional_merge_message("other"), "chore: merge other");
    for source in ["feature/foo", "docs/x", "chore/y", "plain"] {
        assert!(validate_conventional_commit_message(&conventional_merge_message(source)).is_ok());
    }
    for source in ["", " ", "a b", "perf/\u{7}", "fix/\n"] {
        assert!(is_conventional_commit_subject(&conventional_merge_message(source)));
    }
}
