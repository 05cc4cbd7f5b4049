//! What the terminal UI reports to Herdr.

use crate::copilot_enterprise::str_option;
use crate::herdr::{reported, AgentState, Reporter, ReporterView, WorkerState, WorkerView};
use crate::message::text_option;
use crate::text::{owned, same};
use vstd::prelude::*;

verus! {

/// What the UI remembers between reports.
pub struct SyncState {
    pub session_id: Option<String>,
    /// What the user is asked to permit, where something waits for permission.
    pub permission_message: Option<String>,
}

/// The model of [`SyncState`].
pub struct SyncView {
    pub session_id: Option<Seq<char>>,
    pub permission_message: Option<Seq<char>>,
}

impl View for SyncState {
    type V = SyncView;

    open spec fn view(&self) -> SyncView {
        SyncView {
            session_id: text_option(self.session_id),
            permission_message: text_option(self.permission_message),
        }
    }
}

/// What a poll for pending permissions found: a session, and its message.
pub type PollResult = (String, Option<String>);

/// The last of the first `n` results that is for a session.
pub open spec fn latest_among(results: Seq<PollResult>, session: Seq<char>, n: int) -> Option<
    Option<Seq<char>>,
>
    decreases n,
{
    if n <= 0 {
        None
    } else if results[n - 1].0@ == session {
        Some(text_option(results[n - 1].1))
    } else {
        latest_among(results, session, n - 1)
    }
}

/// The last result that is for a session. Results for other sessions are passed
/// over.
pub fn latest(results: &Vec<PollResult>, session_id: &str) -> (r: Option<Option<String>>)
    ensures
        (match r {
            Some(message) => latest_among(results@, session_id@, results@.len() as int) == Some(
                text_option(message),
            ),
            None => latest_among(results@, session_id@, results@.len() as int) is None,
        }),
{
    let mut n: usize = results.len();
    while n > 0
        invariant
            n <= results@.len(),
            latest_among(results@, session_id@, results@.len() as int) == latest_among(
                results@,
                session_id@,
                n as int,
            ),
        decreases n,
    {
        if same(results[n - 1].0.as_str(), session_id) {
            return Some(
                match &results[n - 1].1 {
                    Some(message) => Some(message.clone()),
                    None => None,
                },
            );
        }
        n = n - 1;
    }
    None
}

/// What the UI remembers after it looked at a session and at new results.
pub open spec fn looked_at(st: SyncView, session: Seq<char>, results: Seq<PollResult>) -> SyncView {
    let kept = if st.session_id == Some(session) {
        st
    } else {
        SyncView { session_id: Some(session), permission_message: None }
    };
    match latest_among(results, session, results.len() as int) {
        Some(message) => SyncView { permission_message: message, ..kept },
        None => kept,
    }
}

/// What is reported of a session: that it works, else that it is blocked where
/// something waits for permission, else that it is idle.
pub open spec fn session_report(
    st: SyncView,
    r: ReporterView,
    w: WorkerView,
    session: Seq<char>,
    is_processing: bool,
) -> (ReporterView, WorkerView) {
    if is_processing {
        reported(r, w, session, AgentState::Working, None)
    } else {
        match st.permission_message {
            Some(message) => reported(r, w, session, AgentState::Blocked, Some(message)),
            None => reported(r, w, session, AgentState::Idle, None),
        }
    }
}

impl SyncState {
    /// Nothing is remembered yet.
    pub fn new() -> (r: SyncState)
        ensures
            r@ == (SyncView { session_id: None, permission_message: None }),
    {
        SyncState { session_id: None, permission_message: None }
    }

    /// Reports the state of a session, given what polls have found since.
    /// Returns the session to poll for, where it is a new one.
    pub fn sync(
        &mut self,
        reporter: &mut Reporter,
        worker: &mut WorkerState,
        session_id: &str,
        is_processing: bool,
        results: &Vec<PollResult>,
    ) -> (r: Option<String>)
        ensures
            final(self)@ == looked_at(old(self)@, session_id@, results@),
            (final(reporter)@, final(worker)@) == session_report(
                final(self)@,
                old(reporter)@,
                old(worker)@,
                session_id@,
                is_processing,
            ),
            text_option(r) == (if old(self)@.session_id == Some(session_id@) {
                None
            } else {
                Some(session_id@)
            }),
    {
        let known = match &self.session_id {
            Some(known) => same(known.as_str(), session_id),
            None => false,
        };
        let mut track: Option<String> = None;
        if !known {
            self.session_id = Some(owned(session_id));
            self.permission_message = None;
            track = Some(owned(session_id));
        }
        match latest(results, session_id) {
            Some(message) => {
                self.permission_message = message;
            },
            None => {},
        }
        if is_processing {
            reporter.report_working(worker, session_id);
            return track;
        }
        match &self.permission_message {
            Some(message) => {
                reporter.report_blocked(worker, session_id, message.clone());
            },
            None => {
                reporter.report_idle(worker, session_id);
            },
        }
        track
    }

    /// Reports the state of a session that runs elsewhere. A command there that
    /// waits for input counts before everything else.
    pub fn sync_remote(
        &mut self,
        reporter: &mut Reporter,
        worker: &mut WorkerState,
        session_id: Option<&str>,
        blocked_message: Option<&str>,
        is_processing: bool,
        results: &Vec<PollResult>,
    ) -> (r: Option<String>)
        ensures
            (match (str_option(session_id), str_option(blocked_message)) {
                (None, _) => {
                    &&& final(self)@ == old(self)@
                    &&& final(reporter)@ == old(reporter)@
                    &&& final(worker)@ == old(worker)@
                    &&& r is None
                },
                (Some(session), Some(message)) => {
                    &&& final(self)@ == old(self)@
                    &&& (final(reporter)@, final(worker)@) == reported(
                        old(reporter)@,
                        old(worker)@,
                        session,
                        AgentState::Blocked,
                        Some(message),
                    )
                    &&& r is None
                },
                (Some(session), None) => {
                    &&& final(self)@ == looked_at(old(self)@, session, results@)
                    &&& (final(reporter)@, final(worker)@) == session_report(
                        final(self)@,
                        old(reporter)@,
                        old(worker)@,
                        session,
                        is_processing,
                    )
                    &&& text_option(r) == (if old(self)@.session_id == Some(session) {
                        None
                    } else {
                        Some(session)
                    })
                },
            }),
    {
        match session_id {
            None => None,
            Some(session_id) => match blocked_message {
                Some(message) => {
                    reporter.report_blocked(worker, session_id, owned(message));
                    None
                },
                None => self.sync(reporter, worker, session_id, is_processing, results),
            },
        }
    }
}

/// What the poller of permissions is told.
#[derive(Debug, PartialEq)]
pub enum PollCommand {
    /// Poll for this session.
    Track(String),
    Stop,
}

/// What came of waiting for a command.
#[derive(Debug, PartialEq)]
pub enum PollInput {
    Command(PollCommand),
    Disconnected,
    Timeout,
}

/// What the poller does next.
#[derive(Debug, PartialEq)]
pub enum PollNext {
    Stop,
    /// Ask what this session waits for, and report it.
    Ask(String),
    Wait,
}

/// Handles what came of waiting for a command; `session_id` is the session that
/// is polled for.
pub fn poll_step(session_id: &mut Option<String>, input: PollInput) -> (r: PollNext)
    ensures
        (match input {
            PollInput::Command(PollCommand::Track(next)) => text_option(*final(session_id))
                == Some(next@),
            _ => text_option(*final(session_id)) == text_option(*old(session_id)),
        }),
        (match input {
            PollInput::Command(PollCommand::Stop) | PollInput::Disconnected => r is Stop,
            _ => match text_option(*final(session_id)) {
                Some(session) => r matches PollNext::Ask(asked) && asked@ == session,
                None => r is Wait,
            },
        }),
{
    match input {
        PollInput::Command(PollCommand::Track(next)) => {
            *session_id = Some(next);
        },
        PollInput::Command(PollCommand::Stop) => {
            return PollNext::Stop;
        },
        PollInput::Disconnected => {
            return PollNext::Stop;
        },
        PollInput::Timeout => {},
    }
    match &*session_id {
        Some(session) => PollNext::Ask(session.clone()),
        None => PollNext::Wait,
    }
}

/// A permission that one session waits for is never reported of another: a
/// change of the session drops the message, and results for other sessions do
/// not bring one.
pub proof fn law_permissions_stay_with_their_session(
    st: SyncView,
    session: Seq<char>,
    results: Seq<PollResult>,
)
    requires
        st.session_id != Some(session),
        forall|i: int| 0 <= i < results.len() ==> (#[trigger] results[i]).0@ != session,
    ensures
        looked_at(st, session, results).permission_message is None,
{
    lemma_none_for_session(results, session, results.len() as int);
}

proof fn lemma_none_for_session(results: Seq<PollResult>, session: Seq<char>, n: int)
    requires
        0 <= n <= results.len(),
        forall|i: int| 0 <= i < results.len() ==> (#[trigger] results[i]).0@ != session,
    ensures
        latest_among(results, session, n) is None,
    decreases n,
{
    if n > 0 {
        lemma_none_for_session(results, session, n - 1);
    }
}

/// Whether a look at a remote session reads the results of the poller: it names a
/// session, and nothing else blocks it.
pub fn reads_results(session_id: Option<&str>, blocked_message: Option<&str>) -> (r: bool)
    ensures
        r == (session_id is Some && blocked_message is None),
{
    session_id.is_some() && blocked_message.is_none()
}

} // verus!
