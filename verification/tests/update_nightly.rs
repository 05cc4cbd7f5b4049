//! Updates to the nightly build.

use jcode_copilot::json::{object1, Json};
use jcode_copilot::update_nightly::{
    check_manual_update, check_version_report, commit_url, comparison_requires_update,
    hashes_match, is_nightly, nightly_is_update, nightly_release_for_commit, release_url,
    short_sha, update_summary, validate_artifact_hash, verify_downloaded_binary, GitHubRelease, UpdateCheck,
};

fn release(tag_name: &str, target_commitish: &str) -> GitHubRelease {
    GitHubRelease {
        tag_name: tag_name.to_string(),
        target_commitish: target_commitish.to_string(),
    }
}

#[test]
fn commit_labels_are_immutable_and_hash_comparison_accepts_short_ids() {
    assert_eq!(short_sha("0123456789abcdef"), "0123456");
    assert!(hashes_match("0123456", "0123456789abcdef"));
    assert!(!hashes_match("unknown", "0123456789abcdef"));
}

#[test]
fn comparison_updates_only_when_nightly_is_newer_or_diverged() {
    assert!(comparison_requires_update("ahead").unwrap());
    assert!(!comparison_requires_update("behind").unwrap());
    assert!(!comparison_requires_update("identical").unwrap());
    assert!(comparison_requires_update("diverged").is_err());
    assert!(comparison_requires_update("mystery").is_err());
}

#[test]
fn downloaded_artifact_must_match_resolved_nightly_commit() {
    assert!(validate_artifact_hash("0123456", "0123456789abcdef").is_ok());
    assert!(validate_artifact_hash("abcdef0", "0123456789abcdef").is_err());
}

#[test]
fn nightly_release_uses_resolved_commit_not_moving_tag_name() {
    let named = nightly_release_for_commit(release("nightly", "master"), "0123456789abcdef")
        .unwrap();
    assert_eq!(named.tag_name, "nightly-0123456");
    assert_eq!(named.target_commitish, "0123456789abcdef");
    assert!(nightly_release_for_commit(named, "").is_err());
}

#[test]
fn short_labels_keep_what_is_too_short_to_cut() {
    assert_eq!(short_sha("012"), "012");
    assert_eq!(short_sha("0123456"), "0123456");
    // The seventh byte falls inside a letter, so nothing is cut.
    assert_eq!(short_sha("012345\u{e9}789"), "012345\u{e9}789");
}

#[test]
fn commit_comparison_is_even() {
    for (left, right) in [("0123456", "0123456789"), ("abc", "def"), (" ", "abc")] {
        assert_eq!(hashes_match(left, right), hashes_match(right, left));
    }
    assert!(hashes_match(" 0123456\n", "0123456"));
    assert!(!hashes_match("", ""));
}

#[test]
fn a_named_release_accepts_a_build_of_its_commit() {
    let named = nightly_release_for_commit(release("nightly", "master"), "0123456789abcdef")
        .unwrap();
    assert!(is_nightly(&named));
    assert!(!is_nightly(&release("v1.2.3", "master")));
    assert!(check_version_report(&named, &object1("git_hash", Json::text("0123456"))).is_ok());
    assert_eq!(
        check_version_report(&named, &object1("version", Json::text("1"))),
        Err("Downloaded fork nightly binary did not report a git hash".to_string())
    );
    assert!(check_version_report(&named, &object1("git_hash", Json::text("fff")))
        .unwrap_err()
        .starts_with("Fork nightly artifact was built from "));
}

#[test]
fn version_reports_are_read_from_json() {
    let named = release("nightly-0123456", "0123456789abcdef");
    assert!(verify_downloaded_binary(&named, true, Some(r#"{"git_hash":"0123456"}"#)).is_ok());
    assert!(verify_downloaded_binary(&named, true, Some(r#"{"git_hash":"abc"}"#)).is_err());
    assert!(verify_downloaded_binary(&named, true, Some("no json")).is_err());
    assert!(verify_downloaded_binary(&named, true, None).is_err());
    assert!(verify_downloaded_binary(&named, false, Some(r#"{"git_hash":"0123456"}"#)).is_err());
    // Only nightly builds are held to a commit.
    assert!(verify_downloaded_binary(&release("v1", "x"), false, None).is_ok());
}

#[test]
fn an_update_is_due_when_the_commits_differ() {
    let nightly = release("nightly-0123456", "0123456789abcdef");
    assert_eq!(nightly_is_update("0123456", &nightly), UpdateCheck::Current);
    assert_eq!(nightly_is_update("unknown", &nightly), UpdateCheck::Update);
    assert_eq!(nightly_is_update(" ", &nightly), UpdateCheck::Update);
    assert_eq!(
        nightly_is_update("fffffff", &nightly),
        UpdateCheck::Compare(
            "https://api.github.com/repos/7sedam7/jcode/compare/fffffff...0123456789abcdef"
                .to_string()
        )
    );
}

#[test]
fn a_manual_update_needs_a_build_and_its_checksums() {
    assert_eq!(check_manual_update(false, false, false), Ok(false));
    assert_eq!(check_manual_update(true, true, true), Ok(true));
    assert_eq!(
        check_manual_update(true, false, true),
        Err(
            "Fork nightly currently publishes prebuilt Linux x86_64 and aarch64 assets only"
                .to_string()
        )
    );
    assert_eq!(
        check_manual_update(true, true, false),
        Err("Fork nightly release is still publishing SHA256SUMS".to_string())
    );
}

#[test]
fn nightly_is_asked_for_at_the_fork() {
    assert_eq!(
        release_url(),
        "https://api.github.com/repos/7sedam7/jcode/releases/tags/nightly"
    );
    assert_eq!(
        commit_url(),
        "https://api.github.com/repos/7sedam7/jcode/commits/nightly"
    );
}

#[test]
fn a_long_update_runs_in_the_background() {
    assert_eq!(
        update_summary("v1", "nightly-0123456", "42", "about 30s", 29, 30),
        "Fork nightly update v1 \u{2192} nightly-0123456 (~42 MB, about 30s). This should be quick."
    );
    assert_eq!(
        update_summary("v1", "nightly-0123456", "42", "about 30s", 30, 30),
        "Fork nightly update v1 \u{2192} nightly-0123456 (~42 MB, about 30s). \
         Running in the background and will reload when it is ready."
    );
}
