//! What holds of every nightly update: which commits are the same, which builds are
//! newer, and what is said of an update.

use crate::json::{field, JsonView};
use crate::text::{begins, trimmed, white_space};
use crate::text_laws::law_trimmed_text_stays;
use crate::update_nightly::{
    chars_for_bytes, comparison, hash_in, is_hash, one_commit, reported_hash, short_hash,
    summary_text, text_bytes, wrong_build,
};
use vstd::prelude::*;

verus! {

proof fn lemma_ascii_bytes(s: Seq<char>)
    requires
        forall|i: int| 0 <= i < s.len() ==> (#[trigger] s[i]) as u32 <= 127,
    ensures
        text_bytes(s) == s.len(),
    decreases s.len(),
{
    if s.len() > 0 {
        assert forall|i: int| 0 <= i < s.drop_last().len() implies (
        #[trigger] s.drop_last()[i]) as u32 <= 127 by {
            assert(s.drop_last()[i] == s[i]);
        }
        lemma_ascii_bytes(s.drop_last());
    }
}

proof fn lemma_ascii_cut(s: Seq<char>, n: nat, k: int)
    requires
        0 <= k <= n,
        forall|i: int| 0 <= i < s.len() ==> (#[trigger] s[i]) as u32 <= 127,
    ensures
        n <= s.len() ==> chars_for_bytes(s, n, k) == Some(n as int),
        n > s.len() ==> chars_for_bytes(s, n, k) is None,
    decreases n - k,
{
    if k <= s.len() {
        assert forall|i: int| 0 <= i < s.take(k).len() implies (
        #[trigger] s.take(k)[i]) as u32 <= 127 by {
            assert(s.take(k)[i] == s[i]);
        }
        lemma_ascii_bytes(s.take(k));
        if k < n {
            lemma_ascii_cut(s, n, k + 1);
        }
    }
}

/// A short hash is the first seven characters of a hash, and a shorter hash itself.
pub proof fn law_short_hash_has_seven_characters(sha: Seq<char>)
    requires
        forall|i: int| 0 <= i < sha.len() ==> (#[trigger] sha[i]) as u32 <= 127,
    ensures
        sha.len() >= 7 ==> short_hash(sha) == sha.take(7),
        sha.len() < 7 ==> short_hash(sha) == sha,
{
    lemma_ascii_cut(sha, 7, 0);
}

proof fn lemma_cut(s: Seq<char>, n: nat, k: int)
    requires
        0 <= k,
    ensures
        chars_for_bytes(s, n, k) matches Some(i) ==> k <= i <= s.len() && text_bytes(s.take(i)) == n,
    decreases s.len() - k + 1,
{
    if k <= s.len() && text_bytes(s.take(k)) != n {
        lemma_cut(s, n, k + 1);
    }
}

/// A short hash is the front of its hash, of seven bytes or the whole of it.
pub proof fn law_short_hash_is_the_front(sha: Seq<char>)
    ensures
        begins(sha, short_hash(sha)),
        short_hash(sha) == sha || text_bytes(short_hash(sha)) == 7,
{
    lemma_cut(sha, 7, 0);
    assert(sha.subrange(0, sha.len() as int) =~= sha);
    if let Some(k) = chars_for_bytes(sha, 7, 0) {
        assert(sha.subrange(0, k) =~= sha.take(k));
    }
}

/// A hash and any front of it name one commit. Nothing names a commit with an empty
/// hash or an unknown one, and two hashes that differ within their common length
/// name two.
pub proof fn law_fronts_name_the_commit(hash: Seq<char>, other: Seq<char>, k: int)
    requires
        hash.len() > 0,
        forall|i: int| 0 <= i < hash.len() ==> !white_space(#[trigger] hash[i]),
    ensures
        0 < k <= hash.len() && hash != "unknown"@ && hash.take(k) != "unknown"@ ==> one_commit(
            hash,
            hash.take(k),
        ),
        trimmed(other).len() == 0 ==> !one_commit(hash, other),
        trimmed(other) == "unknown"@ ==> !one_commit(hash, other),
        0 <= k < hash.len() && k < trimmed(other).len() && hash[k] != trimmed(other)[k]
            ==> !one_commit(hash, other),
{
    law_trimmed_text_stays(hash);
    if 0 < k <= hash.len() {
        let front = hash.take(k);
        assert(front[0] == hash[0] && front.last() == hash[k - 1]);
        law_trimmed_text_stays(front);
        assert(hash.subrange(0, k) =~= front);
    }
    let r = trimmed(other);
    if 0 <= k < hash.len() && k < r.len() && hash[k] != r[k] {
        if begins(hash, r) {
            assert(hash.subrange(0, r.len() as int)[k] == hash[k]);
        }
        if begins(r, hash) {
            assert(r.subrange(0, hash.len() as int)[k] == r[k]);
        }
    }
}

/// Only a nightly that is ahead is an update. One that is behind or the same is
/// none, and one that diverged, or stands nobody knows where, is refused.
pub proof fn law_only_ahead_is_an_update(status: Seq<char>)
    ensures
        comparison("ahead"@) == Ok::<bool, Seq<char>>(true),
        comparison("behind"@) == Ok::<bool, Seq<char>>(false),
        comparison("identical"@) == Ok::<bool, Seq<char>>(false),
        comparison("diverged"@) == Err::<bool, Seq<char>>(
            "Current build and fork nightly have diverged; refusing to replace local commits"@,
        ),
        status != "ahead"@ && status != "behind"@ && status != "identical"@ && status
            != "diverged"@ ==> comparison(status) == Err::<bool, Seq<char>>(
            "Unknown GitHub comparison status: "@ + status,
        ),
{
    reveal_strlit("ahead");
    reveal_strlit("behind");
    reveal_strlit("identical");
    reveal_strlit("diverged");
    assert("ahead"@.len() == 5);
    assert("behind"@.len() == 6);
    assert("identical"@.len() == 9);
    assert("diverged"@.len() == 8);
}

/// The hash of a build is the string that its report names; a report without one,
/// one that is no JSON, and a failed check are told apart.
pub proof fn law_builds_report_their_hash(report: JsonView, hash: Seq<char>, text: Option<Seq<char>>)
    ensures
        field(report, "git_hash"@) == Some(JsonView::Str(hash)) <==> hash_in(report) == Ok::<
            Seq<char>,
            Seq<char>,
        >(hash),
        field(report, "git_hash"@) is None ==> hash_in(report) == Err::<Seq<char>, Seq<char>>(
            "Downloaded fork nightly binary did not report a git hash"@,
        ),
        reported_hash(false, text) == Err::<Seq<char>, Seq<char>>(
            "Downloaded fork nightly binary failed its version check"@,
        ),
        reported_hash(true, None) == Err::<Seq<char>, Seq<char>>(
            "Downloaded fork nightly binary returned invalid version JSON"@,
        ),
        text matches Some(written) ==> (crate::json::parsed_json(written) == Some(report)
            ==> reported_hash(true, text) == hash_in(report)),
        text matches Some(written) ==> (crate::json::parsed_json(written) is None ==> reported_hash(
            true,
            text,
        ) == Err::<Seq<char>, Seq<char>>(
            "Downloaded fork nightly binary returned invalid version JSON"@,
        )),
{
}

/// What is said of an update names both builds, its size and how long it may take;
/// what is said of a wrong build names both commits.
pub proof fn law_update_is_described(
    current: Seq<char>,
    tag: Seq<char>,
    size_mb: Seq<char>,
    estimate: Seq<char>,
)
    ensures
        summary_text(current, tag, size_mb, estimate, true) == "Fork nightly update "@ + current
            + " → "@ + tag + " (~"@ + size_mb + " MB, "@ + estimate + "). "@
            + "Running in the background and will reload when it is ready."@,
        summary_text(current, tag, size_mb, estimate, false) == "Fork nightly update "@ + current
            + " → "@ + tag + " (~"@ + size_mb + " MB, "@ + estimate + "). "@
            + "This should be quick."@,
        wrong_build(current, tag) == "Fork nightly artifact was built from "@ + current
            + ", expected "@ + short_hash(tag),
        is_hash(current) <==> current.len() > 0 && current != "unknown"@,
{
}

} // verus!
