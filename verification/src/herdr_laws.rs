//! What holds of every report to the terminal: what was said is queued once, in
//! order, and sent as it was said.

use crate::herdr::{
    next_work, queued, release_line, released, report_line, reported, spoken, target_for,
    AgentState, CommandView, ReportView, ReporterView, WorkerView,
};
use crate::herdr_sync::{latest_among, looked_at, session_report, PollResult, SyncView};
use crate::message::text_option;
use crate::text::{digits_value, trimmed};
use crate::text_laws::law_numbers_read_back;
use vstd::prelude::*;

verus! {

/// Whether a report is new to a reporter that may still speak.
pub open spec fn is_news(
    r: ReporterView,
    w: WorkerView,
    session: Seq<char>,
    state: AgentState,
    message: Option<Seq<char>>,
) -> bool {
    &&& r.enabled && w.release_seq is None
    &&& trimmed(session).len() > 0
    &&& r.last_report matches Some(last) ==> last.session_id != trimmed(session) || last.state
        != state || last.message != spoken(message)
}

/// A report that is new stands last in the queue, with the session, the state and
/// the words that were given and the next number. The queue keeps the reports that
/// were in it, but for the oldest of four.
pub proof fn law_news_is_queued_last(
    r: ReporterView,
    w: WorkerView,
    session: Seq<char>,
    state: AgentState,
    message: Option<Seq<char>>,
)
    requires
        is_news(r, w, session, state, message),
        r.next_seq < u64::MAX,
    ensures
        ({
            let (after, work) = reported(r, w, session, state, message);
            let report = work.pending.last();
            &&& report.session_id == trimmed(session)
            &&& report.state == state
            &&& report.message == spoken(message)
            &&& report.seq == r.next_seq + 1
            &&& after.next_seq == r.next_seq + 1 && after.enabled
            &&& after.last_report == Some(report)
            &&& w.pending.len() < 4 ==> work.pending.drop_last() == w.pending
            &&& w.pending.len() == 4 ==> work.pending.drop_last() == w.pending.skip(1)
            &&& work.release_seq == w.release_seq && work.stop_requested == w.stop_requested
                && work.stopped == w.stopped
        }),
{
    let work = reported(r, w, session, state, message).1;
    let report = work.pending.last();
    assert(work.pending.drop_last() =~= if w.pending.len() == 4 {
        w.pending.skip(1)
    } else {
        w.pending
    });
}

/// A report of no session, or the same report as the last, changes nothing. One that
/// may not be sent any more only takes a number.
pub proof fn law_no_news_is_not_queued(
    r: ReporterView,
    w: WorkerView,
    session: Seq<char>,
    state: AgentState,
    message: Option<Seq<char>>,
)
    ensures
        trimmed(session).len() == 0 ==> reported(r, w, session, state, message) == (r, w),
        r.last_report matches Some(last) ==> (last.session_id == trimmed(session) && last.state
            == state && last.message == spoken(message) ==> reported(
            r,
            w,
            session,
            state,
            message,
        ) == (r, w)),
        !r.enabled || w.release_seq is Some ==> {
            let (after, work) = reported(r, w, session, state, message);
            work == w && after.last_report == r.last_report && after.enabled == r.enabled
        },
{
}

/// Words are sent as they are; a blank is no word.
pub proof fn law_blank_words_are_none(text: Seq<char>)
    ensures
        spoken(None) is None,
        trimmed(text).len() == 0 ==> spoken(Some(text)) is None,
        trimmed(text).len() > 0 ==> spoken(Some(text)) == Some(text),
{
}

/// A release takes the next number where something was said, and asks the worker to
/// stop where nothing was. It leaves the queue alone, and is made once.
pub proof fn law_release_comes_once(r: ReporterView, w: WorkerView)
    ensures
        ({
            let (after, work) = released(r, w);
            &&& !after.enabled
            &&& work.pending == w.pending
            &&& r.enabled && r.last_report is Some && r.next_seq < u64::MAX ==> work.release_seq
                == Some((r.next_seq + 1) as u64) && after.next_seq == r.next_seq + 1
                && work.stop_requested == w.stop_requested
            &&& r.enabled && r.last_report is None ==> work.stop_requested && work.release_seq
                == w.release_seq && after.next_seq == r.next_seq
            &&& released(after, work) == (after, work)
        }),
{
}

/// The worker takes the oldest report first, then the release, then the stop. It
/// takes one thing at a time and leaves the rest.
pub proof fn law_worker_takes_the_oldest(w: WorkerView)
    ensures
        ({
            let (work, rest) = next_work(w);
            &&& w.pending.len() > 0 ==> work == Some(CommandView::Report(w.pending[0]))
                && seq![w.pending[0]] + rest.pending == w.pending && rest.release_seq
                == w.release_seq
            &&& w.pending.len() == 0 ==> (w.release_seq matches Some(seq) ==> work == Some(
                CommandView::Release(seq),
            ) && rest.release_seq is None && rest.pending == w.pending)
            &&& w.pending.len() == 0 && w.release_seq is None ==> rest == w && (w.stop_requested
                ==> work == Some(CommandView::Stop)) && (!w.stop_requested ==> work is None)
            &&& rest.stop_requested == w.stop_requested && rest.stopped == w.stopped
        }),
{
    if w.pending.len() > 0 {
        assert(seq![w.pending[0]] + w.pending.skip(1) =~= w.pending);
    }
}

/// Reports go out only inside the terminal, to the pane that it names, through the
/// program that it names, or `herdr` where it names none.
pub proof fn law_target_is_the_pane(
    env: Option<Seq<char>>,
    binary: Option<Seq<char>>,
    pane: Option<Seq<char>>,
)
    ensures
        ({
            let target = target_for(env, binary, pane);
            &&& target is Some <==> (env matches Some(value) && trimmed(value) == "1"@) && (
            pane matches Some(pane) && trimmed(pane).len() > 0)
            &&& target matches Some((program, at)) ==> at == trimmed(pane->0)
            &&& target matches Some((program, at)) ==> (binary matches Some(path) ==> (path.len()
                > 0 ==> program == path))
            &&& target matches Some((program, at)) ==> (binary is None || binary->0.len() == 0
                ==> program == "herdr"@)
        }),
{
}

/// The command line of a report names the pane, the source, the state, the session
/// and the number, and carries the words where there are any.
pub proof fn law_report_line_says_the_report(pane: Seq<char>, report: ReportView)
    ensures
        ({
            let line = report_line(pane, report);
            &&& line[0] == "pane"@ && line[1] == "report-agent"@ && line[2] == pane
            &&& line[3] == "--source"@ && line[4] == "custom:jcode"@
            &&& line[5] == "--agent"@ && line[6] == "jcode"@
            &&& line[7] == "--state"@
            &&& report.state is Idle ==> line[8] == "idle"@
            &&& report.state is Working ==> line[8] == "working"@
            &&& report.state is Blocked ==> line[8] == "blocked"@
            &&& line[9] == "--agent-session-id"@ && line[10] == report.session_id
            &&& line[11] == "--seq"@ && digits_value(line[12]) == Some(report.seq as nat)
            &&& report.message is None ==> line.len() == 13
            &&& report.message matches Some(message) ==> line.len() == 15 && line[13]
                == "--message"@ && line[14] == message
        }),
{
    law_numbers_read_back(report.seq as nat);
}

/// The command line of a release names the pane, the source and the number.
pub proof fn law_release_line_says_the_release(pane: Seq<char>, seq: u64)
    ensures
        ({
            let line = release_line(pane, seq);
            &&& line.len() == 9
            &&& line[0] == "pane"@ && line[1] == "release-agent"@ && line[2] == pane
            &&& line[3] == "--source"@ && line[4] == "custom:jcode"@
            &&& line[5] == "--agent"@ && line[6] == "jcode"@
            &&& line[7] == "--seq"@ && digits_value(line[8]) == Some(seq as nat)
        }),
{
    law_numbers_read_back(seq as nat);
}

proof fn lemma_latest_before(results: Seq<PollResult>, r: PollResult, session: Seq<char>, n: int)
    requires
        n <= results.len(),
    ensures
        latest_among(results.push(r), session, n) == latest_among(results, session, n),
    decreases n,
{
    if n > 0 {
        lemma_latest_before(results, r, session, n - 1);
        assert(results.push(r)[n - 1] == results[n - 1]);
    }
}

/// The last answer on a session tells whether it waits for a permission; an answer
/// on another session tells nothing, and without any the session keeps what it had.
pub proof fn law_last_answer_tells(
    st: SyncView,
    session: Seq<char>,
    results: Seq<PollResult>,
    r: PollResult,
)
    ensures
        r.0@ == session ==> looked_at(st, session, results.push(r)).permission_message
            == text_option(r.1),
        r.0@ != session ==> looked_at(st, session, results.push(r)) == looked_at(
            st,
            session,
            results,
        ),
        st.session_id == Some(session) ==> looked_at(st, session, Seq::<PollResult>::empty()) == st,
        looked_at(st, session, results).session_id == Some(session),
{
    let n = results.len() as int;
    lemma_latest_before(results, r, session, n);
    assert(results.push(r)[n] == r);
}

/// A session that is at work is reported as working, one that waits for a permission
/// as blocked with the question, and every other one as idle.
pub proof fn law_session_is_reported_as_it_is(
    st: SyncView,
    r: ReporterView,
    w: WorkerView,
    session: Seq<char>,
)
    ensures
        ({
            let work = session_report(st, r, w, session, true).1;
            is_news(r, w, session, AgentState::Working, None) ==> work.pending.len() > 0
                && work.pending.last().state is Working && work.pending.last().message is None
                && work.pending.last().session_id == trimmed(session)
        }),
        st.permission_message matches Some(message) ==> {
            let work = session_report(st, r, w, session, false).1;
            is_news(r, w, session, AgentState::Blocked, Some(message)) ==> work.pending.len() > 0
                && work.pending.last().state is Blocked && work.pending.last().message == spoken(
                Some(message),
            ) && work.pending.last().session_id == trimmed(session)
        },
        st.permission_message is None ==> {
            let work = session_report(st, r, w, session, false).1;
            is_news(r, w, session, AgentState::Idle, None) ==> work.pending.len() > 0
                && work.pending.last().state is Idle && work.pending.last().message is None
                && work.pending.last().session_id == trimmed(session)
        },
{
}

} // verus!
