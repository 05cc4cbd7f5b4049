//! The registry of the sessions' providers.

use jcode_copilot::session_provider::{for_session, SessionProviders};

const FIRST: u64 = 1;
const SECOND: u64 = 2;

#[test]
fn provider_registration_moves_and_replaces_the_previous_owner() {
    let alive = vec![FIRST, SECOND];
    let old = "session-provider-old";
    let new = "session-provider-new";
    let mut registry = SessionProviders::new();

    registry.record_session_provider(old, FIRST, &alive);
    assert_eq!(registry.session_provider(old, &alive), Some(FIRST));

    registry.move_session_provider(old, new, FIRST);
    assert!(registry.session_provider(old, &alive).is_none());
    assert_eq!(registry.session_provider(new, &alive), Some(FIRST));

    registry.record_session_provider(new, SECOND, &alive);
    assert_eq!(registry.session_provider(new, &alive), Some(SECOND));

    registry.forget_session_provider(new, FIRST);
    assert_eq!(registry.session_provider(new, &alive), Some(SECOND));
    registry.forget_session_provider(new, SECOND);
    assert!(registry.session_provider(new, &alive).is_none());
}

#[test]
fn a_dropped_provider_is_not_handed_out() {
    let mut registry = SessionProviders::new();
    registry.record_session_provider("s", FIRST, &vec![FIRST]);
    assert_eq!(registry.session_provider("s", &vec![SECOND]), None);
    assert_eq!(for_session(&registry, "s", SECOND, &vec![SECOND]), SECOND);
    assert_eq!(for_session(&registry, "s", SECOND, &vec![FIRST]), FIRST);
}

#[test]
fn moving_leaves_another_owner_in_place() {
    let alive = vec![FIRST, SECOND];
    let mut registry = SessionProviders::new();
    registry.record_session_provider("old", SECOND, &alive);
    registry.move_session_provider("old", "new", FIRST);
    assert_eq!(registry.session_provider("old", &alive), Some(SECOND));
    assert_eq!(registry.session_provider("new", &alive), Some(FIRST));
}
