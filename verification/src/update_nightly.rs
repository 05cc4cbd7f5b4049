//! Updates from the nightly builds of the fork.
//!
//! The nightly tag moves. A release is therefore named after the commit that the
//! tag resolves to, and a downloaded build has to report that commit.

use crate::json::{field, parse, parsed_json, string_in, Json, JsonView};
use crate::text::{begins, chars_of, owned, same, starts_with, text_of, trim, trimmed};
use vstd::prelude::*;

verus! {

/// The repository of the fork.
pub const FORK_REPO: &'static str = "7sedam7/jcode";

/// The tag of the nightly release.
pub const NIGHTLY_TAG: &'static str = "nightly";

/// How many bytes a character takes in UTF-8.
pub open spec fn char_bytes(c: char) -> nat {
    if (c as u32) < 0x80 {
        1
    } else if (c as u32) < 0x800 {
        2
    } else if (c as u32) < 0x10000 {
        3
    } else {
        4
    }
}

/// How many bytes a text takes in UTF-8.
pub open spec fn text_bytes(s: Seq<char>) -> nat
    decreases s.len(),
{
    if s.len() == 0 {
        0
    } else {
        text_bytes(s.drop_last()) + char_bytes(s.last())
    }
}

/// How many characters, `k` or more, take `n` bytes together.
pub open spec fn chars_for_bytes(s: Seq<char>, n: nat, k: int) -> Option<int>
    decreases s.len() - k + 1,
{
    if k < 0 || k > s.len() {
        None
    } else if text_bytes(s.take(k)) == n {
        Some(k)
    } else {
        chars_for_bytes(s, n, k + 1)
    }
}

/// The short form of a commit's hash: its first seven bytes, where a character
/// ends there, else the whole.
pub open spec fn short_hash(sha: Seq<char>) -> Seq<char> {
    match chars_for_bytes(sha, 7, 0) {
        Some(k) => sha.take(k),
        None => sha,
    }
}

fn bytes_of_char(c: char) -> (r: usize)
    ensures
        r == char_bytes(c),
{
    let code: u32 = c as u32;
    if code < 0x80 {
        1
    } else if code < 0x800 {
        2
    } else if code < 0x10000 {
        3
    } else {
        4
    }
}

proof fn lemma_bytes_grow(s: Seq<char>, i: int, k: int)
    requires
        0 <= i <= k <= s.len(),
    ensures
        text_bytes(s.take(i)) <= text_bytes(s.take(k)),
    decreases k,
{
    if i < k {
        assert(s.take(k).drop_last() =~= s.take(k - 1));
        lemma_bytes_grow(s, i, k - 1);
    }
}

proof fn lemma_too_many_bytes(s: Seq<char>, n: nat, k: int)
    requires
        0 <= k <= s.len(),
        text_bytes(s.take(k)) > n,
    ensures
        chars_for_bytes(s, n, k) is None,
    decreases s.len() - k,
{
    if k < s.len() {
        lemma_bytes_grow(s, k, k + 1);
        lemma_too_many_bytes(s, n, k + 1);
    } else {
        assert(chars_for_bytes(s, n, k + 1) is None);
    }
}

/// The short form of a commit's hash.
pub fn short_sha(sha: &str) -> (r: String)
    ensures
        r@ == short_hash(sha@),
{
    let cs = chars_of(sha);
    let mut k: usize = 0;
    let mut bytes: usize = 0;
    assert(sha@.take(0) =~= Seq::<char>::empty());
    while k < cs.len() && bytes < 7
        invariant
            cs@ == sha@,
            k <= cs.len(),
            bytes == text_bytes(sha@.take(k as int)),
            bytes < 11,
            chars_for_bytes(sha@, 7, 0) == chars_for_bytes(sha@, 7, k as int),
        decreases cs@.len() - k,
    {
        assert(sha@.take(k + 1).drop_last() =~= sha@.take(k as int));
        bytes = bytes + bytes_of_char(cs[k]);
        k = k + 1;
    }
    if bytes == 7 {
        let r = text_of(&cs, 0, k);
        assert(r@ =~= sha@.take(k as int));
        return r;
    }
    proof {
        if bytes > 7 {
            lemma_too_many_bytes(sha@, 7, k as int);
        } else {
            assert(chars_for_bytes(sha@, 7, k + 1) is None);
        }
    }
    owned(sha)
}

/// Whether a hash says anything.
pub open spec fn is_hash(hash: Seq<char>) -> bool {
    hash.len() > 0 && hash != "unknown"@
}

/// Whether two hashes name one commit: one begins with the other.
pub open spec fn one_commit(left: Seq<char>, right: Seq<char>) -> bool {
    let l = trimmed(left);
    let r = trimmed(right);
    is_hash(l) && is_hash(r) && (begins(l, r) || begins(r, l))
}

/// Whether two hashes, of which each may be a short one, name one commit.
pub fn hashes_match(left: &str, right: &str) -> (r: bool)
    ensures
        r == one_commit(left@, right@),
{
    let left = trim(left);
    let right = trim(right);
    !left.is_empty() && !same(left, "unknown") && !right.is_empty() && !same(right, "unknown") && (
    starts_with(left, right) || starts_with(right, left))
}

/// What a comparison of the current build with the nightly one says: whether to
/// update, or why not to.
pub open spec fn comparison(status: Seq<char>) -> Result<bool, Seq<char>> {
    if status == "ahead"@ {
        Ok(true)
    } else if status == "behind"@ || status == "identical"@ {
        Ok(false)
    } else if status == "diverged"@ {
        Err(
            "Current build and fork nightly have diverged; refusing to replace local commits"@,
        )
    } else {
        Err("Unknown GitHub comparison status: "@ + status)
    }
}

/// Whether a comparison of the current build with the nightly one asks for an
/// update. Builds that have diverged are left alone.
pub fn comparison_requires_update(status: &str) -> (r: Result<bool, String>)
    ensures
        (match r {
            Ok(update) => comparison(status@) == Ok::<bool, Seq<char>>(update),
            Err(message) => comparison(status@) == Err::<bool, Seq<char>>(message@),
        }),
{
    if same(status, "ahead") {
        Ok(true)
    } else if same(status, "behind") || same(status, "identical") {
        Ok(false)
    } else if same(status, "diverged") {
        Err(
            owned("Current build and fork nightly have diverged; refusing to replace local commits"),
        )
    } else {
        let mut message = owned("Unknown GitHub comparison status: ");
        message.append(status);
        Err(message)
    }
}

/// The message for a build of another commit.
pub open spec fn wrong_build(actual: Seq<char>, expected: Seq<char>) -> Seq<char> {
    "Fork nightly artifact was built from "@ + actual + ", expected "@ + short_hash(expected)
}

/// Checks that a build is one of the expected commit.
pub fn validate_artifact_hash(actual: &str, expected: &str) -> (r: Result<(), String>)
    ensures
        (match r {
            Ok(_) => one_commit(actual@, expected@),
            Err(message) => !one_commit(actual@, expected@) && message@ == wrong_build(
                actual@,
                expected@,
            ),
        }),
{
    if hashes_match(actual, expected) {
        return Ok(());
    }
    let mut message = owned("Fork nightly artifact was built from ");
    message.append(actual);
    message.append(", expected ");
    message.append(short_sha(expected).as_str());
    Err(message)
}

/// A release on GitHub.
#[derive(Debug)]
pub struct GitHubRelease {
    pub tag_name: String,
    /// The commit or branch that the release was made of.
    pub target_commitish: String,
}

/// The nightly release, named after the commit that its tag resolves to.
pub fn nightly_release_for_commit(release: GitHubRelease, commit_sha: &str) -> (r: Result<
    GitHubRelease,
    String,
>)
    ensures
        (match r {
            Ok(named) => trimmed(commit_sha@).len() > 0 && named.target_commitish@ == commit_sha@
                && named.tag_name@ == "nightly-"@ + short_hash(commit_sha@),
            Err(message) => trimmed(commit_sha@).len() == 0 && message@
                == "Fork nightly tag did not resolve to a commit"@,
        }),
{
    if trim(commit_sha).is_empty() {
        return Err(owned("Fork nightly tag did not resolve to a commit"));
    }
    let mut tag_name = owned("nightly-");
    tag_name.append(short_sha(commit_sha).as_str());
    Ok(GitHubRelease { tag_name, target_commitish: owned(commit_sha) })
}

/// Whether a release is a nightly one, whose build has to be checked.
pub fn is_nightly(release: &GitHubRelease) -> (r: bool)
    ensures
        r == begins(release.tag_name@, "nightly-"@),
{
    starts_with(release.tag_name.as_str(), "nightly-")
}

/// The hash in a version report, or why there is none.
pub open spec fn hash_in(report: JsonView) -> Result<Seq<char>, Seq<char>> {
    match string_in(field(report, "git_hash"@)) {
        Some(hash) => Ok(hash),
        None => Err("Downloaded fork nightly binary did not report a git hash"@),
    }
}

/// Checks a nightly build by its version report.
pub fn check_version_report(release: &GitHubRelease, report: &Json) -> (r: Result<(), String>)
    ensures
        (match r {
            Ok(_) => hash_in(report@) matches Ok(hash) && one_commit(
                hash,
                release.target_commitish@,
            ),
            Err(message) => match hash_in(report@) {
                Ok(hash) => !one_commit(hash, release.target_commitish@) && message@
                    == wrong_build(hash, release.target_commitish@),
                Err(fault) => message@ == fault,
            },
        }),
{
    match report.get("git_hash") {
        Some(Json::Str(hash)) => validate_artifact_hash(
            hash.as_str(),
            release.target_commitish.as_str(),
        ),
        _ => Err(owned("Downloaded fork nightly binary did not report a git hash")),
    }
}

/// What the version report of a build comes to: the hash that it was built from,
/// or why there is none.
pub open spec fn reported_hash(success: bool, report: Option<Seq<char>>) -> Result<
    Seq<char>,
    Seq<char>,
> {
    if !success {
        Err("Downloaded fork nightly binary failed its version check"@)
    } else {
        match report {
            Some(text) => match parsed_json(text) {
                Some(value) => hash_in(value),
                None => Err("Downloaded fork nightly binary returned invalid version JSON"@),
            },
            None => Err("Downloaded fork nightly binary returned invalid version JSON"@),
        }
    }
}

/// Checks a downloaded build by its version report. `report` is what the build
/// printed, if that is text.
pub fn verify_downloaded_binary(
    release: &GitHubRelease,
    success: bool,
    report: Option<&str>,
) -> (r: Result<(), String>)
    ensures
        (match r {
            Ok(_) => !begins(release.tag_name@, "nightly-"@) || (reported_hash(
                success,
                crate::copilot_enterprise::str_option(report),
            ) matches Ok(hash) && one_commit(hash, release.target_commitish@)),
            Err(message) => begins(release.tag_name@, "nightly-"@) && (match reported_hash(
                success,
                crate::copilot_enterprise::str_option(report),
            ) {
                Ok(hash) => !one_commit(hash, release.target_commitish@) && message@
                    == wrong_build(hash, release.target_commitish@),
                Err(fault) => message@ == fault,
            }),
        }),
{
    if !is_nightly(release) {
        return Ok(());
    }
    if !success {
        return Err(owned("Downloaded fork nightly binary failed its version check"));
    }
    let value = match report {
        Some(text) => parse(text),
        None => None,
    };
    match value {
        Some(value) => check_version_report(release, &value),
        None => Err(owned("Downloaded fork nightly binary returned invalid version JSON")),
    }
}

/// Where the nightly release is found.
pub fn release_url() -> (r: String)
    ensures
        r@ == "https://api.github.com/repos/"@ + "7sedam7/jcode"@ + "/releases/tags/"@
            + "nightly"@,
{
    let mut r = owned("https://api.github.com/repos/");
    r.append(FORK_REPO);
    r.append("/releases/tags/");
    r.append(NIGHTLY_TAG);
    r
}

/// Where the nightly tag is resolved.
pub fn commit_url() -> (r: String)
    ensures
        r@ == "https://api.github.com/repos/"@ + "7sedam7/jcode"@ + "/commits/"@ + "nightly"@,
{
    let mut r = owned("https://api.github.com/repos/");
    r.append(FORK_REPO);
    r.append("/commits/");
    r.append(NIGHTLY_TAG);
    r
}

/// What is known of an update before anything is compared.
#[derive(Debug, PartialEq)]
pub enum UpdateCheck {
    /// The nightly build is the current one.
    Current,
    /// What the current build is made of is not known: it is replaced.
    Update,
    /// The two are to be compared at this URL.
    Compare(String),
}

/// Whether the nightly release replaces the build of `current_hash`, as far as
/// can be said without comparing the two.
pub fn nightly_is_update(current_hash: &str, release: &GitHubRelease) -> (r: UpdateCheck)
    ensures
        ({
            let nightly = trimmed(release.target_commitish@);
            let current = trimmed(current_hash@);
            if one_commit(current_hash@, nightly) {
                r is Current
            } else if current.len() == 0 || current_hash@ == "unknown"@ {
                r is Update
            } else {
                r matches UpdateCheck::Compare(url) && url@ == "https://api.github.com/repos/"@
                    + "7sedam7/jcode"@ + "/compare/"@ + current + "..."@ + nightly
            }
        }),
{
    let nightly = trim(release.target_commitish.as_str());
    if hashes_match(current_hash, nightly) {
        return UpdateCheck::Current;
    }
    let current = trim(current_hash);
    if current.is_empty() || same(current_hash, "unknown") {
        return UpdateCheck::Update;
    }
    let mut url = owned("https://api.github.com/repos/");
    url.append(FORK_REPO);
    url.append("/compare/");
    url.append(current);
    url.append("...");
    url.append(nightly);
    UpdateCheck::Compare(url)
}

/// Whether a release that is an update can be offered: it has a build for this
/// platform, and its checksums are published.
pub fn check_manual_update(is_update: bool, has_build: bool, has_checksums: bool) -> (r: Result<
    bool,
    String,
>)
    ensures
        (match r {
            Ok(offered) => offered == is_update && (is_update ==> has_build && has_checksums),
            Err(message) => is_update && message@ == (if !has_build {
                "Fork nightly currently publishes prebuilt Linux x86_64 and aarch64 assets only"@
            } else {
                "Fork nightly release is still publishing SHA256SUMS"@
            }) && !(has_build && has_checksums),
        }),
{
    if !is_update {
        return Ok(false);
    }
    if !has_build {
        return Err(
            owned("Fork nightly currently publishes prebuilt Linux x86_64 and aarch64 assets only"),
        );
    }
    if !has_checksums {
        return Err(owned("Fork nightly release is still publishing SHA256SUMS"));
    }
    Ok(true)
}

/// What the user is told of an update: the versions, its size and expected time as
/// texts, and whether it runs in the background.
pub open spec fn summary_text(
    current: Seq<char>,
    tag: Seq<char>,
    size_mb: Seq<char>,
    estimate: Seq<char>,
    in_background: bool,
) -> Seq<char> {
    "Fork nightly update "@ + current + " → "@ + tag + " (~"@ + size_mb + " MB, "@ + estimate
        + "). "@ + (if in_background {
        "Running in the background and will reload when it is ready."@
    } else {
        "This should be quick."@
    })
}

/// What the user is told of an update. One that takes as long as the threshold, or
/// longer, runs in the background.
pub fn update_summary(
    current: &str,
    tag: &str,
    size_mb: &str,
    estimate: &str,
    duration_nanos: u128,
    threshold_nanos: u128,
) -> (r: String)
    ensures
        r@ == summary_text(
            current@,
            tag@,
            size_mb@,
            estimate@,
            duration_nanos >= threshold_nanos,
        ),
{
    let mut r = owned("Fork nightly update ");
    r.append(current);
    r.append(" → ");
    r.append(tag);
    r.append(" (~");
    r.append(size_mb);
    r.append(" MB, ");
    r.append(estimate);
    r.append("). ");
    if duration_nanos >= threshold_nanos {
        r.append("Running in the background and will reload when it is ready.");
    } else {
        r.append("This should be quick.");
    }
    r
}

/// It does not matter which of two hashes is given first, and a hash names the
/// same commit as itself, if it says anything.
pub proof fn law_commit_match_is_even(left: Seq<char>, right: Seq<char>)
    ensures
        one_commit(left, right) == one_commit(right, left),
        is_hash(trimmed(left)) ==> one_commit(left, left),
{
    let l = trimmed(left);
    assert(l.subrange(0, l.len() as int) =~= l);
}

/// A release that was named after a commit passes the check of a build of that
/// commit, and is one that is checked.
pub proof fn law_named_release_accepts_its_commit(sha: Seq<char>, tag: Seq<char>)
    requires
        is_hash(trimmed(sha)),
        tag == "nightly-"@ + short_hash(sha),
    ensures
        begins(tag, "nightly-"@),
        one_commit(sha, sha),
{
    assert(tag.subrange(0, "nightly-"@.len() as int) =~= "nightly-"@);
    law_commit_match_is_even(sha, sha);
}

} // verus!
