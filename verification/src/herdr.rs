//! Best-effort reporting of the agent's state to Herdr.
//!
//! Herdr names the pane that a process runs in. The foreground process tells it
//! through its command line whether the agent is idle, working or blocked.
//! Reports are queued for one worker, so that a slow Herdr never holds anything
//! up: [`Reporter`] puts them in, the worker takes them out of [`WorkerState`].

use crate::copilot_enterprise::str_option;
use crate::message::text_option;
use crate::text::{owned, same, to_decimal, trim, trimmed};
use vstd::prelude::*;

verus! {

/// Who reports.
pub const SOURCE: &'static str = "custom:jcode";

/// The agent that is reported of.
pub const AGENT: &'static str = "jcode";

/// How many reports wait at most.
pub const MAX_PENDING_REPORTS: usize = 4;

/// What the agent is doing.
#[derive(Clone, Copy, Debug, PartialEq, Eq, Structural)]
pub enum AgentState {
    Idle,
    Working,
    Blocked,
}

/// The name of a state.
pub open spec fn state_name(state: AgentState) -> Seq<char> {
    match state {
        AgentState::Idle => "idle"@,
        AgentState::Working => "working"@,
        AgentState::Blocked => "blocked"@,
    }
}

impl AgentState {
    /// The name of the state.
    pub fn as_str(self) -> (r: &'static str)
        ensures
            r@ == state_name(self),
    {
        match self {
            AgentState::Idle => "idle",
            AgentState::Working => "working",
            AgentState::Blocked => "blocked",
        }
    }
}

/// One report.
#[derive(Debug, PartialEq)]
pub struct Report {
    pub session_id: String,
    pub state: AgentState,
    pub message: Option<String>,
    pub seq: u64,
}

/// The model of [`Report`].
pub struct ReportView {
    pub session_id: Seq<char>,
    pub state: AgentState,
    pub message: Option<Seq<char>>,
    pub seq: u64,
}

impl View for Report {
    type V = ReportView;

    open spec fn view(&self) -> ReportView {
        ReportView {
            session_id: self.session_id@,
            state: self.state,
            message: text_option(self.message),
            seq: self.seq,
        }
    }
}

/// A text that may be absent, once more.
fn copy_option(t: &Option<String>) -> (r: Option<String>)
    ensures
        text_option(r) == text_option(*t),
{
    match t {
        Some(t) => Some(t.clone()),
        None => None,
    }
}

impl Report {
    /// A report that says the same.
    pub fn copy(&self) -> (r: Report)
        ensures
            r@ == self@,
    {
        Report {
            session_id: self.session_id.clone(),
            state: self.state,
            message: copy_option(&self.message),
            seq: self.seq,
        }
    }
}

/// What the reporter and its worker share.
#[derive(Debug)]
pub struct WorkerState {
    pub pending: Vec<Report>,
    pub release_seq: Option<u64>,
    pub stop_requested: bool,
    pub stopped: bool,
}

/// The model of [`WorkerState`].
pub struct WorkerView {
    pub pending: Seq<ReportView>,
    pub release_seq: Option<u64>,
    pub stop_requested: bool,
    pub stopped: bool,
}

/// The models of a list of reports.
pub open spec fn report_views(reports: Seq<Report>) -> Seq<ReportView> {
    reports.map_values(|r: Report| r@)
}

impl View for WorkerState {
    type V = WorkerView;

    open spec fn view(&self) -> WorkerView {
        WorkerView {
            pending: report_views(self.pending@),
            release_seq: self.release_seq,
            stop_requested: self.stop_requested,
            stopped: self.stopped,
        }
    }
}

impl Default for WorkerState {
    fn default() -> (r: WorkerState)
        ensures
            r@ == (WorkerView {
                pending: seq![],
                release_seq: None,
                stop_requested: false,
                stopped: false,
            }),
    {
        let r = WorkerState {
            pending: Vec::new(),
            release_seq: None,
            stop_requested: false,
            stopped: false,
        };
        assert(r@.pending =~= seq![]);
        r
    }
}

/// Where reports go.
#[derive(Debug, PartialEq)]
pub struct Target {
    pub binary: String,
    pub pane_id: String,
}

/// Where reports go, given the environment: nowhere unless reporting is switched
/// on and the pane is named. Without a binary of its own, `herdr` is looked up.
pub open spec fn target_for(
    herdr_env: Option<Seq<char>>,
    binary: Option<Seq<char>>,
    pane_id: Option<Seq<char>>,
) -> Option<(Seq<char>, Seq<char>)> {
    let enabled = herdr_env matches Some(value) && trimmed(value) == "1"@;
    let program = match binary {
        Some(path) => if path.len() > 0 {
            path
        } else {
            "herdr"@
        },
        None => "herdr"@,
    };
    match pane_id {
        Some(pane) => if enabled && trimmed(pane).len() > 0 {
            Some((program, trimmed(pane)))
        } else {
            None
        },
        None => None,
    }
}

/// The reporter of one pane.
#[derive(Debug)]
pub struct Reporter {
    pub enabled: bool,
    pub last_report: Option<Report>,
    pub next_seq: u64,
}

/// The model of [`Reporter`].
pub struct ReporterView {
    pub enabled: bool,
    pub last_report: Option<ReportView>,
    pub next_seq: u64,
}

impl View for Reporter {
    type V = ReporterView;

    open spec fn view(&self) -> ReporterView {
        ReporterView {
            enabled: self.enabled,
            last_report: match self.last_report {
                Some(report) => Some(report@),
                None => None,
            },
            next_seq: self.next_seq,
        }
    }
}

/// The sequence number after `seq`; the largest one stays.
pub open spec fn seq_after(seq: u64) -> u64 {
    if seq == u64::MAX {
        seq
    } else {
        (seq + 1) as u64
    }
}

/// Whether a report says what was said last.
pub open spec fn says_again(
    last: Option<ReportView>,
    session_id: Seq<char>,
    state: AgentState,
    message: Option<Seq<char>>,
) -> bool {
    last matches Some(report) && report.session_id == session_id && report.state == state
        && report.message == message
}

/// A message that says something.
pub open spec fn spoken(message: Option<Seq<char>>) -> Option<Seq<char>> {
    match message {
        Some(text) => if trimmed(text).len() == 0 {
            None
        } else {
            Some(text)
        },
        None => None,
    }
}

/// The queue with one more report; a full queue loses its oldest one.
pub open spec fn queued(pending: Seq<ReportView>, report: ReportView) -> Seq<ReportView> {
    if pending.len() == MAX_PENDING_REPORTS {
        pending.skip(1).push(report)
    } else {
        pending.push(report)
    }
}

/// What a report leads to. A blank message is none. A blank session says nothing,
/// and neither does what was said last. Once a release is due nothing is queued any more.
pub open spec fn reported(
    r: ReporterView,
    w: WorkerView,
    session: Seq<char>,
    state: AgentState,
    message: Option<Seq<char>>,
) -> (ReporterView, WorkerView) {
    let session_id = trimmed(session);
    if session_id.len() == 0 || says_again(
        r.last_report,
        session_id,
        state,
        spoken(message),
    ) {
        (r, w)
    } else {
        let seq = seq_after(r.next_seq);
        let report = ReportView { session_id, state, message: spoken(message), seq };
        let counted = ReporterView { next_seq: seq, ..r };
        if r.enabled && w.release_seq is None {
            (
                ReporterView { last_report: Some(report), ..counted },
                WorkerView { pending: queued(w.pending, report), ..w },
            )
        } else {
            (counted, w)
        }
    }
}

/// What the end of reporting leads to: a release where anything was reported,
/// else a plain stop.
pub open spec fn released(r: ReporterView, w: WorkerView) -> (ReporterView, WorkerView) {
    if !r.enabled {
        (r, w)
    } else if r.last_report is Some {
        let seq = seq_after(r.next_seq);
        (
            ReporterView { enabled: false, next_seq: seq, ..r },
            WorkerView { release_seq: Some(seq), ..w },
        )
    } else {
        (ReporterView { enabled: false, ..r }, WorkerView { stop_requested: true, ..w })
    }
}

/// Whether two texts that may be absent are the same.
fn same_option(a: &Option<String>, b: &Option<String>) -> (r: bool)
    ensures
        r == (text_option(*a) == text_option(*b)),
{
    match (a, b) {
        (Some(a), Some(b)) => same(a.as_str(), b.as_str()),
        (None, None) => true,
        _ => false,
    }
}

/// The number after which reports are numbered, from the nanoseconds since the
/// epoch: a later process starts with a larger one.
pub fn initial_sequence(nanos: u128) -> (r: u64)
    ensures
        r == (if nanos <= u64::MAX {
            nanos as u64
        } else {
            u64::MAX
        }),
{
    if nanos <= u64::MAX as u128 {
        nanos as u64
    } else {
        u64::MAX
    }
}

impl Reporter {
    /// A reporter for the pane that the environment names, whose reports are
    /// numbered after `initial_seq`, and where its reports go. Without a pane
    /// the reporter is disabled.
    pub fn from_values_with_seq(
        herdr_env: Option<&str>,
        binary: Option<&str>,
        pane_id: Option<&str>,
        initial_seq: u64,
    ) -> (r: (Reporter, Option<Target>))
        ensures
            (match target_for(str_option(herdr_env), str_option(binary), str_option(pane_id)) {
                Some(place) => {
                    &&& r.0@ == (ReporterView {
                        enabled: true,
                        last_report: None,
                        next_seq: initial_seq,
                    })
                    &&& r.1 matches Some(target) && target.binary@ == place.0 && target.pane_id@
                        == place.1
                },
                None => r.0@ == (ReporterView { enabled: false, last_report: None, next_seq: 0 })
                    && r.1 is None,
            }),
    {
        let enabled = match herdr_env {
            Some(value) => same(trim(value), "1"),
            None => false,
        };
        let pane = match pane_id {
            Some(pane) => trim(pane),
            None => "",
        };
        proof {
            reveal_strlit("");
        }
        if !enabled || pane.is_empty() {
            return (Self::disabled(), None);
        }
        let program = match binary {
            Some(path) => {
                if path.is_empty() {
                    owned("herdr")
                } else {
                    owned(path)
                }
            },
            None => owned("herdr"),
        };
        (
            Reporter { enabled: true, last_report: None, next_seq: initial_seq },
            Some(Target { binary: program, pane_id: owned(pane) }),
        )
    }

    /// A reporter that reports nothing.
    pub fn disabled() -> (r: Reporter)
        ensures
            r@ == (ReporterView { enabled: false, last_report: None, next_seq: 0 }),
    {
        Reporter { enabled: false, last_report: None, next_seq: 0 }
    }

    /// Whether reports go anywhere.
    pub fn is_enabled(&self) -> (r: bool)
        ensures
            r == self@.enabled,
    {
        self.enabled
    }

    /// The next sequence number.
    pub fn take_seq(&mut self) -> (r: u64)
        ensures
            r == seq_after(old(self)@.next_seq),
            final(self)@ == (ReporterView { next_seq: r, ..old(self)@ }),
    {
        self.next_seq = self.next_seq.saturating_add(1);
        self.next_seq
    }

    /// Reports that the agent waits for a prompt.
    pub fn report_idle(&mut self, worker: &mut WorkerState, session_id: &str)
        ensures
            (final(self)@, final(worker)@) == reported(
                old(self)@,
                old(worker)@,
                session_id@,
                AgentState::Idle,
                None,
            ),
    {
        self.report(worker, session_id, AgentState::Idle, None);
    }

    /// Reports that the agent works.
    pub fn report_working(&mut self, worker: &mut WorkerState, session_id: &str)
        ensures
            (final(self)@, final(worker)@) == reported(
                old(self)@,
                old(worker)@,
                session_id@,
                AgentState::Working,
                None,
            ),
    {
        self.report(worker, session_id, AgentState::Working, None);
    }

    /// Reports that the agent waits for a decision of the user.
    pub fn report_blocked(&mut self, worker: &mut WorkerState, session_id: &str, message: String)
        ensures
            (final(self)@, final(worker)@) == reported(
                old(self)@,
                old(worker)@,
                session_id@,
                AgentState::Blocked,
                Some(message@),
            ),
    {
        self.report(worker, session_id, AgentState::Blocked, Some(message));
    }

    /// Reports whether a turn is running, where there is a session.
    pub fn sync_activity(
        &mut self,
        worker: &mut WorkerState,
        session_id: Option<&str>,
        is_processing: bool,
    )
        ensures
            (final(self)@, final(worker)@) == (match str_option(session_id) {
                Some(session) => reported(
                    old(self)@,
                    old(worker)@,
                    session,
                    if is_processing {
                        AgentState::Working
                    } else {
                        AgentState::Idle
                    },
                    None,
                ),
                None => (old(self)@, old(worker)@),
            }),
    {
        match session_id {
            Some(session_id) => {
                if is_processing {
                    self.report_working(worker, session_id);
                } else {
                    self.report_idle(worker, session_id);
                }
            },
            None => {},
        }
    }

    /// Queues a report, unless it says nothing new.
    pub fn report(
        &mut self,
        worker: &mut WorkerState,
        session_id: &str,
        state: AgentState,
        message: Option<String>,
    )
        ensures
            (final(self)@, final(worker)@) == reported(
                old(self)@,
                old(worker)@,
                session_id@,
                state,
                text_option(message),
            ),
    {
        let session_id = trim(session_id);
        if session_id.is_empty() {
            return ;
        }
        let message = match message {
            Some(text) => {
                if trim(text.as_str()).is_empty() {
                    None
                } else {
                    Some(text)
                }
            },
            None => None,
        };
        match &self.last_report {
            Some(last) => {
                if same(last.session_id.as_str(), session_id) && last.state == state && same_option(
                    &last.message,
                    &message,
                ) {
                    return ;
                }
            },
            None => {},
        }
        let seq: u64 = self.take_seq();
        let report = Report { session_id: owned(session_id), state, message, seq };
        if self.enabled && worker.release_seq.is_none() {
            let ghost before = worker.pending@;
            if worker.pending.len() == MAX_PENDING_REPORTS {
                let _ = worker.pending.remove(0);
                assert(report_views(worker.pending@) =~= report_views(before).skip(1));
            }
            let ghost kept = worker.pending@;
            worker.pending.push(report.copy());
            assert(report_views(worker.pending@) =~= report_views(kept).push(report@));
            self.last_report = Some(report);
        }
    }

    /// Ends reporting: the pane is released once all queued reports are out.
    pub fn release(&mut self, worker: &mut WorkerState)
        ensures
            (final(self)@, final(worker)@) == released(old(self)@, old(worker)@),
    {
        if !self.enabled {
            return ;
        }
        self.enabled = false;
        if self.last_report.is_some() {
            worker.release_seq = Some(self.take_seq());
        } else {
            worker.stop_requested = true;
        }
    }
}

/// What the worker is to do.
#[derive(Debug, PartialEq)]
pub enum WorkerCommand {
    Report(Report),
    Release(u64),
    Stop,
}

/// The model of [`WorkerCommand`].
pub enum CommandView {
    Report(ReportView),
    Release(u64),
    Stop,
}

impl View for WorkerCommand {
    type V = CommandView;

    open spec fn view(&self) -> CommandView {
        match *self {
            WorkerCommand::Report(report) => CommandView::Report(report@),
            WorkerCommand::Release(seq) => CommandView::Release(seq),
            WorkerCommand::Stop => CommandView::Stop,
        }
    }
}

/// What the worker does next: the oldest report, then the release, then a stop.
/// `None`: it waits.
pub open spec fn next_work(w: WorkerView) -> (Option<CommandView>, WorkerView) {
    if w.pending.len() > 0 {
        (
            Some(CommandView::Report(w.pending[0])),
            WorkerView { pending: w.pending.skip(1), ..w },
        )
    } else {
        match w.release_seq {
            Some(seq) => (
                Some(CommandView::Release(seq)),
                WorkerView { release_seq: None, ..w },
            ),
            None => if w.stop_requested {
                (Some(CommandView::Stop), w)
            } else {
                (None, w)
            },
        }
    }
}

impl WorkerState {
    /// Takes what the worker does next off the queue; nothing where it has to
    /// wait.
    pub fn next_command(&mut self) -> (r: Option<WorkerCommand>)
        ensures
            final(self)@ == next_work(old(self)@).1,
            (match r {
                Some(command) => next_work(old(self)@).0 == Some(command@),
                None => next_work(old(self)@).0 is None,
            }),
    {
        if self.pending.len() > 0 {
            let ghost before = self.pending@;
            let report = self.pending.remove(0);
            assert(report_views(self.pending@) =~= report_views(before).skip(1));
            return Some(WorkerCommand::Report(report));
        }
        match self.release_seq {
            Some(seq) => {
                self.release_seq = None;
                Some(WorkerCommand::Release(seq))
            },
            None => {
                if self.stop_requested {
                    Some(WorkerCommand::Stop)
                } else {
                    None
                }
            },
        }
    }

    /// Takes back a report that could not be made, unless a newer one or the
    /// release waits.
    pub fn report_failed(&mut self, report: Report)
        ensures
            final(self)@ == (if old(self)@.release_seq is None && old(self)@.pending.len() == 0 {
                WorkerView { pending: seq![report@], ..old(self)@ }
            } else {
                old(self)@
            }),
    {
        if self.release_seq.is_none() && self.pending.len() == 0 {
            let ghost seen = report@;
            self.pending.push(report);
            assert(report_views(self.pending@) =~= seq![seen]);
        }
    }

    /// The worker has stopped.
    pub fn finish(&mut self)
        ensures
            final(self)@ == (WorkerView { stopped: true, ..old(self)@ }),
    {
        self.stopped = true;
    }
}

/// The arguments of a report.
pub open spec fn report_line(pane: Seq<char>, report: ReportView) -> Seq<Seq<char>> {
    let plain = seq![
        "pane"@,
        "report-agent"@,
        pane,
        "--source"@,
        "custom:jcode"@,
        "--agent"@,
        "jcode"@,
        "--state"@,
        state_name(report.state),
        "--agent-session-id"@,
        report.session_id,
        "--seq"@,
        crate::text::decimal(report.seq as nat),
    ];
    match report.message {
        Some(message) => plain.push("--message"@).push(message),
        None => plain,
    }
}

/// The arguments of a release.
pub open spec fn release_line(pane: Seq<char>, seq: u64) -> Seq<Seq<char>> {
    seq![
        "pane"@,
        "release-agent"@,
        pane,
        "--source"@,
        "custom:jcode"@,
        "--agent"@,
        "jcode"@,
        "--seq"@,
        crate::text::decimal(seq as nat),
    ]
}

/// Adds an argument.
fn add_arg(args: &mut Vec<String>, arg: &str)
    ensures
        crate::keyed::text_views(final(args)@) == crate::keyed::text_views(old(args)@).push(arg@),
{
    let ghost before = args@;
    args.push(owned(arg));
    assert(crate::keyed::text_views(args@) =~= crate::keyed::text_views(before).push(arg@));
}

/// The arguments with which Herdr takes a report.
pub fn report_args(target: &Target, report: &Report) -> (r: Vec<String>)
    ensures
        crate::keyed::text_views(r@) == report_line(target.pane_id@, report@),
{
    let mut args: Vec<String> = Vec::new();
    assert(crate::keyed::text_views(args@) =~= seq![]);
    add_arg(&mut args, "pane");
    add_arg(&mut args, "report-agent");
    add_arg(&mut args, target.pane_id.as_str());
    add_arg(&mut args, "--source");
    add_arg(&mut args, SOURCE);
    add_arg(&mut args, "--agent");
    add_arg(&mut args, AGENT);
    add_arg(&mut args, "--state");
    add_arg(&mut args, report.state.as_str());
    add_arg(&mut args, "--agent-session-id");
    add_arg(&mut args, report.session_id.as_str());
    add_arg(&mut args, "--seq");
    add_arg(&mut args, to_decimal(report.seq).as_str());
    match &report.message {
        Some(message) => {
            add_arg(&mut args, "--message");
            add_arg(&mut args, message.as_str());
        },
        None => {},
    }
    assert(crate::keyed::text_views(args@) =~= report_line(target.pane_id@, report@));
    args
}

/// The arguments with which Herdr takes a release.
pub fn release_args(target: &Target, seq: u64) -> (r: Vec<String>)
    ensures
        crate::keyed::text_views(r@) == release_line(target.pane_id@, seq),
{
    let mut args: Vec<String> = Vec::new();
    assert(crate::keyed::text_views(args@) =~= seq![]);
    add_arg(&mut args, "pane");
    add_arg(&mut args, "release-agent");
    add_arg(&mut args, target.pane_id.as_str());
    add_arg(&mut args, "--source");
    add_arg(&mut args, SOURCE);
    add_arg(&mut args, "--agent");
    add_arg(&mut args, AGENT);
    add_arg(&mut args, "--seq");
    add_arg(&mut args, to_decimal(seq).as_str());
    assert(crate::keyed::text_views(args@) =~= release_line(target.pane_id@, seq));
    args
}

/// Whether the queue is short, its reports are numbered upwards, and none is
/// numbered beyond the reporter's count.
pub open spec fn in_order(r: ReporterView, w: WorkerView) -> bool {
    &&& w.pending.len() <= MAX_PENDING_REPORTS
    &&& forall|i: int, j: int|
        0 <= i < j < w.pending.len() ==> (#[trigger] w.pending[i]).seq < (
        #[trigger] w.pending[j]).seq
    &&& forall|i: int| 0 <= i < w.pending.len() ==> (#[trigger] w.pending[i]).seq <= r.next_seq
    &&& w.release_seq matches Some(seq) ==> seq <= r.next_seq && forall|i: int|
        0 <= i < w.pending.len() ==> (#[trigger] w.pending[i]).seq < seq
}

/// The queue stays bounded and numbered upwards, whatever is reported. Only the
/// largest sequence number, after which none is left, is excepted.
pub proof fn law_reports_stay_in_order(
    r: ReporterView,
    w: WorkerView,
    session: Seq<char>,
    state: AgentState,
    message: Option<Seq<char>>,
)
    requires
        in_order(r, w),
        r.next_seq < u64::MAX,
    ensures
        ({
            let after = reported(r, w, session, state, message);
            in_order(after.0, after.1)
        }),
{
}

/// The end of reporting keeps the order too: the release is numbered after every
/// report.
pub proof fn law_release_is_numbered_last(r: ReporterView, w: WorkerView)
    requires
        in_order(r, w),
        r.next_seq < u64::MAX,
    ensures
        ({
            let after = released(r, w);
            in_order(after.0, after.1)
        }),
{
}

/// The worker takes reports in the order of their numbers, and releases the pane
/// only when none is left.
pub proof fn law_worker_keeps_the_order(r: ReporterView, w: WorkerView)
    requires
        in_order(r, w),
    ensures
        in_order(r, next_work(w).1),
        next_work(w).0 matches Some(CommandView::Report(report)) ==> (forall|i: int|
            0 <= i < next_work(w).1.pending.len() ==> report.seq < (
            #[trigger] next_work(w).1.pending[i]).seq),
        next_work(w).0 matches Some(CommandView::Release(_)) ==> w.pending.len() == 0,
{
}

/// A report that could not be made goes back only into an empty queue, so the
/// order stays.
pub proof fn law_failed_report_keeps_the_order(r: ReporterView, w: WorkerView, report: ReportView)
    requires
        in_order(r, w),
        report.seq <= r.next_seq,
        w.release_seq is None,
        w.pending.len() == 0,
    ensures
        in_order(r, WorkerView { pending: seq![report], ..w }),
{
}

/// Saying the same again changes nothing.
pub proof fn law_reports_are_not_repeated(
    r: ReporterView,
    w: WorkerView,
    session: Seq<char>,
    state: AgentState,
    message: Option<Seq<char>>,
)
    requires
        r.enabled,
        w.release_seq is None,
    ensures
        ({
            let once = reported(r, w, session, state, message);
            reported(once.0, once.1, session, state, message) == once
        }),
{
}

/// Once a release is due nothing is queued any more, and a disabled reporter
/// never queues anything.
pub proof fn law_nothing_follows_a_release(
    r: ReporterView,
    w: WorkerView,
    session: Seq<char>,
    state: AgentState,
    message: Option<Seq<char>>,
)
    requires
        w.release_seq is Some || !r.enabled,
    ensures
        reported(r, w, session, state, message).1 == w,
{
}

} // verus!
