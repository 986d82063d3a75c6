use goal_extract::model::{Frame, RawUnit};
use goal_extract::pass::{
    event_of, failure_of, run_extraction, Pass, PassAction, PassError, PassEvent, Phase,
};
use goal_extract::transport::SyncMessage;
use goal_extract::readiness::ReadinessConfig;
use goal_extract::strategy::PageSnapshot;

const EMPTY: &str = "http://localhost:19837?data=%5B%5D";

fn config(max_attempts: u32) -> ReadinessConfig {
    ReadinessConfig { min_length: 50, poll_interval_ms: 500, max_attempts }
}

fn page() -> PageSnapshot {
    PageSnapshot {
        text: "今やるべきゴール\nWrite spec\n完了".to_string(),
        units: vec![RawUnit {
            text: "No heading".to_string(),
            frame: Some(Frame { left: 0, top: 0, width: 10, height: 10 }),
        }],
    }
}

fn sampling(custom: bool) -> Pass {
    let mut pass = Pass::new(config(20), custom);
    assert_eq!(pass.on_event(PassEvent::Begin), PassAction::Reload);
    assert_eq!(pass.on_event(PassEvent::Reloaded), PassAction::Sleep { ms: 3000 });
    assert_eq!(pass.on_event(PassEvent::Elapsed), PassAction::SampleTextLength);
    assert_eq!(pass.phase, Phase::Sampling);
    pass
}

#[test]
fn a_pass_runs_from_reload_to_emission() {
    let (mut pass, first) = run_extraction(true, false);
    assert_eq!(first, PassAction::Reload);
    assert_eq!(pass.phase, Phase::Reloading);
    assert_eq!(pass.on_event(PassEvent::Reloaded), PassAction::Sleep { ms: 3000 });
    assert_eq!(pass.on_event(PassEvent::Elapsed), PassAction::SampleTextLength);
    assert_eq!(pass.on_event(PassEvent::TextLength(10)), PassAction::Sleep { ms: 500 });
    assert_eq!(pass.on_event(PassEvent::Elapsed), PassAction::SampleTextLength);
    assert_eq!(pass.on_event(PassEvent::TextLength(60)), PassAction::Capture);
    assert_eq!(
        pass.on_event(PassEvent::Captured(page())),
        PassAction::Emit {
            address: "http://localhost:19837?data=%5B%7B%22id%22%3A%22addness-0%22%2C%22title%22%3A%22Write%20spec%22%2C%22completed%22%3Afalse%2C%22parentId%22%3Anull%7D%5D".to_string()
        }
    );
    assert_eq!(pass.phase, Phase::Done);
}

#[test]
fn a_finished_pass_ignores_everything() {
    let mut pass = sampling(false);
    assert_eq!(pass.on_event(PassEvent::Fault), PassAction::Emit { address: EMPTY.to_string() });
    assert_eq!(pass.on_event(PassEvent::Fault), PassAction::Ignore);
    assert_eq!(pass.on_event(PassEvent::Begin), PassAction::Ignore);
    assert_eq!(pass.on_event(PassEvent::Captured(page())), PassAction::Ignore);
    assert_eq!(pass.on_event(PassEvent::ContextLost), PassAction::Ignore);
    assert_eq!(pass.phase, Phase::Done);
}

#[test]
fn a_fault_while_sampling_emits_the_empty_payload() {
    let mut pass = sampling(false);
    assert_eq!(pass.on_event(PassEvent::Fault), PassAction::Emit { address: EMPTY.to_string() });
    assert_eq!(pass.phase, Phase::Done);
}

#[test]
fn a_fault_while_pausing_emits_the_empty_payload() {
    let mut pass = sampling(false);
    assert_eq!(pass.on_event(PassEvent::TextLength(0)), PassAction::Sleep { ms: 500 });
    assert_eq!(pass.phase, Phase::Pausing);
    assert_eq!(pass.on_event(PassEvent::Fault), PassAction::Emit { address: EMPTY.to_string() });
}

#[test]
fn a_fault_while_capturing_emits_the_empty_payload() {
    let mut pass = sampling(false);
    assert_eq!(pass.on_event(PassEvent::TextLength(50)), PassAction::Capture);
    assert_eq!(pass.phase, Phase::Capturing);
    assert_eq!(pass.on_event(PassEvent::Fault), PassAction::Emit { address: EMPTY.to_string() });
}

#[test]
fn the_pass_goes_on_when_the_budget_is_spent() {
    let mut pass = sampling(false);
    for _ in 0..20 {
        assert_eq!(pass.on_event(PassEvent::TextLength(0)), PassAction::Sleep { ms: 500 });
        assert_eq!(pass.on_event(PassEvent::Elapsed), PassAction::SampleTextLength);
    }
    assert_eq!(pass.on_event(PassEvent::TextLength(0)), PassAction::Capture);
    assert_eq!(
        pass.on_event(PassEvent::Captured(PageSnapshot { text: String::new(), units: vec![] })),
        PassAction::Emit { address: EMPTY.to_string() }
    );
}

#[test]
fn a_missing_window_is_an_error_and_no_emission() {
    let mut pass = Pass::new(config(20), false);
    assert_eq!(
        pass.on_event(PassEvent::ContextLost),
        PassAction::Fail { error: PassError::ContextMissing }
    );
    assert_eq!(pass.phase, Phase::Done);

    let (mut pass, _) = run_extraction(true, false);
    assert_eq!(
        pass.on_event(PassEvent::ContextLost),
        PassAction::Fail { error: PassError::ContextMissingAfterReload }
    );

    let mut pass = sampling(false);
    assert_eq!(
        pass.on_event(PassEvent::ContextLost),
        PassAction::Fail { error: PassError::ContextMissingAfterReload }
    );
}

fn transport(reason: &str) -> PassAction {
    PassAction::Fail { error: PassError::Transport { reason: reason.to_string() } }
}

fn failed(reason: &str) -> PassEvent {
    PassEvent::TransportFailed { reason: reason.to_string() }
}

#[test]
fn a_pass_without_a_window_fails_before_anything_is_done() {
    let (mut pass, first) = run_extraction(false, false);
    assert_eq!(first, PassAction::Fail { error: PassError::ContextMissing });
    assert_eq!(pass.phase, Phase::Done);
    assert_eq!(pass.on_event(PassEvent::Begin), PassAction::Ignore);
    assert_eq!(pass.on_event(PassEvent::Reloaded), PassAction::Ignore);
    let (_, first) = run_extraction(false, true);
    assert_eq!(first, PassAction::Fail { error: PassError::ContextMissing });
}

#[test]
fn a_reload_that_fails_is_an_error_in_the_words_of_what_failed() {
    let (mut pass, _) = run_extraction(true, false);
    assert_eq!(pass.on_event(failed("webview is gone: os error 5")), transport("webview is gone: os error 5"));
    assert_eq!(pass.phase, Phase::Done);
    assert_eq!(pass.on_event(failed("again")), PassAction::Ignore);
}

#[test]
fn a_script_that_cannot_be_injected_is_an_error_and_no_emission() {
    let mut pass = sampling(false);
    assert_eq!(pass.on_event(failed("eval failed")), transport("eval failed"));
    let mut pass = sampling(false);
    assert_eq!(pass.on_event(PassEvent::TextLength(0)), PassAction::Sleep { ms: 500 });
    assert_eq!(pass.on_event(failed("eval failed")), transport("eval failed"));
    let mut pass = sampling(false);
    assert_eq!(pass.on_event(PassEvent::TextLength(50)), PassAction::Capture);
    assert_eq!(pass.on_event(failed("eval failed")), transport("eval failed"));
    assert_eq!(pass.phase, Phase::Done);
}

#[test]
fn a_transport_failure_ends_a_pass_in_every_phase_but_the_last() {
    let mut pass = Pass::new(config(20), false);
    assert_eq!(pass.on_event(failed("a")), transport("a"));
    let mut pass = Pass::new(config(20), false);
    pass.on_event(PassEvent::Begin);
    pass.on_event(PassEvent::Reloaded);
    assert_eq!(pass.phase, Phase::Settling);
    assert_eq!(pass.on_event(failed("b")), transport("b"));
    assert_eq!(pass.phase, Phase::Done);
}

#[test]
fn a_fault_before_extraction_is_ignored() {
    let (mut pass, _) = run_extraction(true, false);
    assert_eq!(pass.on_event(PassEvent::Fault), PassAction::Ignore);
    assert_eq!(pass.phase, Phase::Reloading);
    assert_eq!(pass.on_event(PassEvent::Unanswered { ticket: 0 }), PassAction::Ignore);
}

#[test]
fn a_page_that_does_not_answer_yields_the_empty_payload() {
    let mut pass = sampling(false);
    assert_eq!(pass.ticket, 1);
    assert_eq!(
        pass.on_event(PassEvent::Unanswered { ticket: 1 }),
        PassAction::Emit { address: EMPTY.to_string() }
    );
    assert_eq!(pass.phase, Phase::Done);

    let mut pass = sampling(false);
    assert_eq!(pass.on_event(PassEvent::TextLength(60)), PassAction::Capture);
    assert_eq!(pass.ticket, 2);
    assert_eq!(
        pass.on_event(PassEvent::Unanswered { ticket: 2 }),
        PassAction::Emit { address: EMPTY.to_string() }
    );
}

#[test]
fn silence_on_an_earlier_question_changes_nothing() {
    let mut pass = sampling(false);
    assert_eq!(pass.on_event(PassEvent::TextLength(0)), PassAction::Sleep { ms: 500 });
    assert_eq!(pass.on_event(PassEvent::Unanswered { ticket: 1 }), PassAction::Ignore);
    assert_eq!(pass.on_event(PassEvent::Elapsed), PassAction::SampleTextLength);
    assert_eq!(pass.ticket, 2);
    assert_eq!(pass.on_event(PassEvent::Unanswered { ticket: 1 }), PassAction::Ignore);
    assert_eq!(pass.on_event(PassEvent::TextLength(60)), PassAction::Capture);
    assert_eq!(pass.on_event(PassEvent::Unanswered { ticket: 2 }), PassAction::Ignore);
    assert_eq!(pass.phase, Phase::Capturing);
    assert_eq!(pass.ticket, 3);
}

#[test]
fn events_out_of_turn_are_ignored() {
    let mut pass = Pass::new(config(20), false);
    assert_eq!(pass.on_event(PassEvent::TextLength(100)), PassAction::Ignore);
    assert_eq!(pass.on_event(PassEvent::Fault), PassAction::Ignore);
    assert_eq!(pass.phase, Phase::Idle);
    let mut pass = sampling(false);
    assert_eq!(pass.on_event(PassEvent::Begin), PassAction::Ignore);
    assert_eq!(pass.on_event(PassEvent::Captured(page())), PassAction::Ignore);
    assert_eq!(pass.phase, Phase::Sampling);
}

#[test]
fn the_wait_starts_afresh_after_the_reload() {
    let mut pass = Pass::new(config(1), false);
    pass.waiter.attempts = 1;
    pass.on_event(PassEvent::Begin);
    pass.on_event(PassEvent::Reloaded);
    pass.on_event(PassEvent::Elapsed);
    assert_eq!(pass.waiter.attempts, 0);
    assert_eq!(pass.on_event(PassEvent::TextLength(0)), PassAction::Sleep { ms: 500 });
}

#[test]
fn a_custom_strategy_stands_in_for_the_built_in_ones() {
    let mut pass = sampling(true);
    assert_eq!(pass.on_event(PassEvent::TextLength(10)), PassAction::Sleep { ms: 500 });
    assert_eq!(pass.on_event(PassEvent::Elapsed), PassAction::SampleTextLength);
    assert_eq!(pass.on_event(PassEvent::TextLength(60)), PassAction::RunCustom);
    assert_eq!(pass.phase, Phase::Done);
    assert_eq!(pass.on_event(PassEvent::Captured(page())), PassAction::Ignore);
}

#[test]
fn messages_from_the_page_become_events() {
    assert_eq!(event_of(SyncMessage::TextLength(7)), Some(PassEvent::TextLength(7)));
    assert_eq!(event_of(SyncMessage::Page(page())), Some(PassEvent::Captured(page())));
    assert_eq!(event_of(SyncMessage::Fault), Some(PassEvent::Fault));
    assert_eq!(event_of(SyncMessage::Payload("[]".to_string())), None);
    assert_eq!(event_of(SyncMessage::Nothing), None);
}

#[test]
fn errors_have_messages() {
    assert_eq!(PassError::ContextMissing.message(), "Addness sync window not found");
    assert_eq!(
        PassError::ContextMissingAfterReload.message(),
        "Addness sync window not found after reload"
    );
    assert_eq!(
        PassError::Transport { reason: "no such window".to_string() }.message(),
        "no such window"
    );
}

#[test]
fn a_last_script_that_cannot_be_handed_over_is_an_error() {
    assert_eq!(
        failure_of(failed("eval failed")),
        Some(PassError::Transport { reason: "eval failed".to_string() })
    );
    assert_eq!(failure_of(PassEvent::ContextLost), Some(PassError::ContextMissingAfterReload));
    assert_eq!(failure_of(PassEvent::Elapsed), None);
    assert_eq!(failure_of(PassEvent::Fault), None);
    assert_eq!(failure_of(PassEvent::Unanswered { ticket: 3 }), None);
}

#[test]
fn a_pass_waits_for_an_answer_while_sampling_and_capturing() {
    let mut pass = Pass::new(config(20), false);
    assert!(!pass.awaits_answer());
    pass.on_event(PassEvent::Begin);
    assert!(!pass.awaits_answer());
    pass.on_event(PassEvent::Reloaded);
    assert!(!pass.awaits_answer());
    pass.on_event(PassEvent::Elapsed);
    assert!(pass.awaits_answer());
    pass.on_event(PassEvent::TextLength(0));
    assert!(!pass.awaits_answer());
    pass.on_event(PassEvent::Elapsed);
    pass.on_event(PassEvent::TextLength(60));
    assert!(pass.awaits_answer());
    assert_eq!(pass.on_event(PassEvent::TextLength(60)), PassAction::Ignore);
    assert!(pass.awaits_answer());
    pass.on_event(PassEvent::Fault);
    assert!(!pass.awaits_answer());
}
