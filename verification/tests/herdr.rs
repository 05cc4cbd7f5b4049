//! Reports to Herdr.

use jcode_copilot::herdr::{
    initial_sequence, release_args, report_args, AgentState, Reporter, Target, WorkerCommand,
    WorkerState,
};
use jcode_copilot::herdr_sync::{latest, poll_step, PollCommand, PollInput, PollNext, SyncState};
use jcode_copilot::multi_provider::{
    copilot_catalog_lists, copilot_catalog_owns, reconcile_auth_if_provider_missing,
    ActiveProvider, ProviderSlots,
};

#[test]
fn herdr_environment_requires_enablement_and_pane_but_can_use_path_binary() {
    let enabled = |env: Option<&str>, binary: Option<&str>, pane: Option<&str>| {
        let (reporter, target) = Reporter::from_values_with_seq(env, binary, pane, 0);
        assert_eq!(reporter.is_enabled(), target.is_some());
        target
    };
    assert!(enabled(None, Some("herdr"), Some("w1:p1")).is_none());
    assert!(enabled(Some("0"), Some("herdr"), Some("w1:p1")).is_none());
    let target = enabled(Some("1"), None, Some("w1:p1")).unwrap();
    assert_eq!(target.binary, "herdr");
    assert_eq!(target.pane_id, "w1:p1");
    assert!(enabled(Some("1"), Some("herdr"), None).is_none());
    assert!(!Reporter::disabled().is_enabled());
}

/// What a worker would run, in order, until it stops.
fn calls(worker: &mut WorkerState, target: &Target) -> Vec<String> {
    let mut lines: Vec<String> = Vec::new();
    loop {
        match worker.next_command() {
            Some(WorkerCommand::Report(report)) => {
                lines.push(report_args(target, &report).join(" "));
            }
            Some(WorkerCommand::Release(seq)) => {
                lines.push(release_args(target, seq).join(" "));
                worker.finish();
                return lines;
            }
            Some(WorkerCommand::Stop) | None => {
                worker.finish();
                return lines;
            }
        }
    }
}

#[test]
fn reports_ordered_state_session_and_release_through_public_cli() {
    let (mut reporter, target) =
        Reporter::from_values_with_seq(Some("1"), Some("fake herdr"), Some("w7:p9"), 100);
    let target = target.unwrap();
    assert_eq!(target.binary, "fake herdr");
    let mut worker = WorkerState::default();
    reporter.report_idle(&mut worker, "ses one");
    reporter.report_working(&mut worker, "ses one");
    reporter.report_working(&mut worker, "ses one");
    reporter.report_blocked(&mut worker, "ses one", "Approval needed".to_string());
    reporter.report_idle(&mut worker, "ses two");
    reporter.release(&mut worker);

    assert_eq!(
        calls(&mut worker, &target),
        [
            "pane report-agent w7:p9 --source custom:jcode --agent jcode --state idle --agent-session-id ses one --seq 101",
            "pane report-agent w7:p9 --source custom:jcode --agent jcode --state working --agent-session-id ses one --seq 102",
            "pane report-agent w7:p9 --source custom:jcode --agent jcode --state blocked --agent-session-id ses one --seq 103 --message Approval needed",
            "pane report-agent w7:p9 --source custom:jcode --agent jcode --state idle --agent-session-id ses two --seq 104",
            "pane release-agent w7:p9 --source custom:jcode --agent jcode --seq 105",
        ]
    );
    assert!(worker.stopped);
}

#[test]
fn the_oldest_pending_reports_are_dropped_first() {
    let (mut reporter, target) =
        Reporter::from_values_with_seq(Some("1"), None, Some("p"), 0);
    let target = target.unwrap();
    let mut worker = WorkerState::default();
    for session in ["a", "b", "c", "d", "e", "f"] {
        reporter.report_idle(&mut worker, session);
    }
    assert_eq!(worker.pending.len(), 4);
    let numbers: Vec<u64> = worker.pending.iter().map(|report| report.seq).collect();
    assert_eq!(numbers, [3, 4, 5, 6]);
    assert_eq!(calls(&mut worker, &target).len(), 4);
}

#[test]
fn a_failed_report_waits_only_while_nothing_newer_does() {
    let (mut reporter, _) = Reporter::from_values_with_seq(Some("1"), None, Some("p"), 0);
    let mut worker = WorkerState::default();
    reporter.report_idle(&mut worker, "a");
    let report = match worker.next_command() {
        Some(WorkerCommand::Report(report)) => report,
        other => panic!("{other:?}"),
    };
    let again = report.copy();
    worker.report_failed(report);
    assert_eq!(worker.pending, [again]);

    let stale = match worker.next_command() {
        Some(WorkerCommand::Report(report)) => report,
        other => panic!("{other:?}"),
    };
    reporter.report_working(&mut worker, "a");
    worker.report_failed(stale);
    assert_eq!(worker.pending.len(), 1);
    assert_eq!(worker.pending[0].state, AgentState::Working);
}

#[test]
fn a_reporter_without_reports_just_stops_its_worker() {
    let (mut reporter, _) = Reporter::from_values_with_seq(Some("1"), None, Some("p"), 0);
    let mut worker = WorkerState::default();
    reporter.report_idle(&mut worker, "  ");
    assert_eq!(worker.next_command(), None);
    reporter.release(&mut worker);
    assert!(!reporter.is_enabled());
    assert_eq!(worker.next_command(), Some(WorkerCommand::Stop));
    reporter.report_idle(&mut worker, "s");
    assert!(worker.pending.is_empty());
    assert_eq!(AgentState::Blocked.as_str(), "blocked");
}

#[test]
fn numbers_never_wrap() {
    assert_eq!(initial_sequence(7), 7);
    assert_eq!(initial_sequence(u128::MAX), u64::MAX);
    let (mut reporter, _) =
        Reporter::from_values_with_seq(Some("1"), None, Some("p"), u64::MAX - 1);
    assert_eq!(reporter.take_seq(), u64::MAX);
    assert_eq!(reporter.take_seq(), u64::MAX);
}

#[test]
fn activity_is_reported_for_a_session() {
    let (mut reporter, _) = Reporter::from_values_with_seq(Some("1"), None, Some("p"), 0);
    let mut worker = WorkerState::default();
    reporter.sync_activity(&mut worker, None, true);
    assert!(worker.pending.is_empty());
    reporter.sync_activity(&mut worker, Some("s"), true);
    reporter.sync_activity(&mut worker, Some("s"), false);
    let states: Vec<AgentState> = worker.pending.iter().map(|report| report.state).collect();
    assert_eq!(states, [AgentState::Working, AgentState::Idle]);
}

#[test]
fn permissions_are_reported_of_their_own_session() {
    let (mut reporter, _) = Reporter::from_values_with_seq(Some("1"), None, Some("p"), 0);
    let mut worker = WorkerState::default();
    let mut sync = SyncState::new();
    let track = sync.sync(&mut reporter, &mut worker, "a", false, &Vec::new());
    assert_eq!(track.as_deref(), Some("a"));
    let results = vec![
        ("a".to_string(), Some("Allow bash?".to_string())),
        ("b".to_string(), Some("Other?".to_string())),
    ];
    let track = sync.sync(&mut reporter, &mut worker, "a", false, &results);
    assert_eq!(track, None);
    let last = worker.pending.last().unwrap();
    assert_eq!(last.state, AgentState::Blocked);
    assert_eq!(last.message.as_deref(), Some("Allow bash?"));

    let _ = sync.sync(&mut reporter, &mut worker, "c", false, &results);
    assert_eq!(worker.pending.last().unwrap().state, AgentState::Idle);
    let _ = sync.sync(&mut reporter, &mut worker, "c", true, &results);
    assert_eq!(worker.pending.last().unwrap().state, AgentState::Working);
    assert_eq!(latest(&results, "c"), None);
    assert_eq!(latest(&results, "b"), Some(Some("Other?".to_string())));
}

#[test]
fn a_remote_command_that_waits_counts_first() {
    let (mut reporter, _) = Reporter::from_values_with_seq(Some("1"), None, Some("p"), 0);
    let mut worker = WorkerState::default();
    let mut sync = SyncState::new();
    let none = Vec::new();
    let track =
        sync.sync_remote(&mut reporter, &mut worker, Some("a"), Some("stdin"), true, &none);
    assert_eq!(track, None);
    assert_eq!(worker.pending.last().unwrap().state, AgentState::Blocked);
    let track = sync.sync_remote(&mut reporter, &mut worker, Some("a"), None, true, &none);
    assert_eq!(track.as_deref(), Some("a"));
    assert_eq!(worker.pending.last().unwrap().state, AgentState::Working);
    let track = sync.sync_remote(&mut reporter, &mut worker, None, None, true, &none);
    assert_eq!(track, None);
}

#[test]
fn the_poller_asks_for_the_tracked_session() {
    let mut session: Option<String> = None;
    assert_eq!(poll_step(&mut session, PollInput::Timeout), PollNext::Wait);
    let track = PollInput::Command(PollCommand::Track("a".to_string()));
    assert_eq!(poll_step(&mut session, track), PollNext::Ask("a".to_string()));
    assert_eq!(
        poll_step(&mut session, PollInput::Timeout),
        PollNext::Ask("a".to_string())
    );
    assert_eq!(
        poll_step(&mut session, PollInput::Command(PollCommand::Stop)),
        PollNext::Stop
    );
    assert_eq!(
        poll_step(&mut session, PollInput::Disconnected),
        PollNext::Stop
    );
}

const NO_SLOTS: ProviderSlots = ProviderSlots {
    claude: false,
    anthropic: false,
    openai: false,
    copilot: false,
    antigravity: false,
    gemini: false,
    cursor: false,
    bedrock: false,
    openrouter_execution: false,
};

#[test]
fn an_active_copilot_owns_the_models_in_its_catalog() {
    let copilot = ProviderSlots {
        copilot: true,
        ..NO_SLOTS
    };
    let listed = vec!["gpt-6-astra".to_string()];
    let none: Vec<String> = Vec::new();
    let owns = |active, slots: &ProviderSlots, model: &str| {
        copilot_catalog_owns(active, slots, &listed, &none, model)
    };
    assert!(owns(ActiveProvider::Copilot, &copilot, " GPT-6-Astra "));
    assert!(!owns(ActiveProvider::Copilot, &copilot, "other"));
    assert!(!owns(ActiveProvider::Claude, &copilot, "gpt-6-astra"));
    assert!(!owns(ActiveProvider::Copilot, &NO_SLOTS, "gpt-6-astra"));
    assert!(copilot_catalog_lists(&none, &listed, "gpt-6-astra"));
    assert!(!copilot_catalog_lists(&listed, &listed, "  "));
    assert!(!copilot_catalog_lists(&none, &none, "gpt-6-astra"));
}

#[test]
fn a_missing_provider_gets_a_second_look() {
    let gained = ProviderSlots {
        anthropic: true,
        ..NO_SLOTS
    };
    assert!(gained.has_claude_runtime());
    let reconcile = |before: &ProviderSlots, after: &ProviderSlots, provider| {
        reconcile_auth_if_provider_missing(before, after, provider)
    };
    assert!(reconcile(&NO_SLOTS, &gained, ActiveProvider::Claude));
    assert!(reconcile(&gained, &NO_SLOTS, ActiveProvider::Claude));
    assert!(!reconcile(&NO_SLOTS, &gained, ActiveProvider::Copilot));
    assert!(!NO_SLOTS.provider_slot_available(ActiveProvider::OpenRouter));
}

#[test]
fn equal_blank_reports_are_queued_once() {
    let (mut reporter, _) =
        Reporter::from_values_with_seq(Some("1"), Some("herdr"), Some("w1:p1"), 100);
    let mut worker = WorkerState::default();
    reporter.report_blocked(&mut worker, "s", "  ".to_string());
    reporter.report_blocked(&mut worker, "s", "  ".to_string());
    assert_eq!(worker.pending.len(), 1);
    assert_eq!(worker.pending[0].session_id, "s");
    assert_eq!(worker.pending[0].state, AgentState::Blocked);
    assert_eq!(worker.pending[0].message, None);
    assert_eq!(worker.pending[0].seq, 101);

    // A message that says something is news.
    reporter.report_blocked(&mut worker, "s", "why".to_string());
    assert_eq!(worker.pending.len(), 2);
    assert_eq!(worker.pending[1].seq, 102);
}
