use chttp::manager::Action;
use chttp::manager::DEFAULT_TIMEOUT_MS;
use chttp::manager::Manager;
use chttp::manager::Message;
use chttp::manager::Token;
use chttp::manager::poll_timeout;

#[test]
fn begin_assigns_fresh_tokens() {
    let mut m = Manager::new();
    let t1 = m.begin();
    let t2 = m.begin();
    assert_ne!(t1, t2);
    assert_eq!(m.slots.len(), 2);
}

#[test]
fn unpause_unknown_token_is_silent() {
    let m = Manager::new();
    // A token the manager never issued: a no-op, never an error.
    let bogus = Token { slot: 17, id: 99 };
    assert_eq!(m.unpause(bogus), None);
}

#[test]
fn unpause_completed_token_is_silent() {
    let mut m = Manager::new();
    let t = m.begin();
    assert!(m.complete(t));
    assert_eq!(m.unpause(t), None, "a late unpause after completion is a no-op");
}

#[test]
fn unpause_active_token_resumes_its_slot() {
    let mut m = Manager::new();
    let t = m.begin();
    assert_eq!(m.unpause(t), Some(0));
}

#[test]
fn completion_is_delivered_at_most_once() {
    let mut m = Manager::new();
    let t = m.begin();
    assert!(m.complete(t), "first completion is delivered");
    assert!(!m.complete(t), "second completion finds the token dead");
}

#[test]
fn recycled_slot_gets_a_distinct_token() {
    let mut m = Manager::new();
    let t1 = m.begin();
    assert!(m.complete(t1));
    let t2 = m.begin();
    // The slot is reused, the token is not.
    assert_eq!(t1.slot, t2.slot);
    assert_ne!(t1, t2);
    assert_eq!(m.unpause(t1), None, "the stale token cannot reach the new occupant");
    assert_eq!(m.unpause(t2), Some(t2.slot));
}

#[test]
fn commands_drain_in_fifo_order() {
    let mut m = Manager::new();
    let t = m.begin();
    m.complete(t);
    let msgs = vec![Message::Begin, Message::Unpause(t), Message::Begin];
    let acts = m.handle_pending_messages(&msgs);
    assert_eq!(acts.len(), 3);
    match (acts[0], acts[1], acts[2]) {
        (Action::Started(a), Action::Stale, Action::Started(b)) => {
            assert_ne!(a, b);
            assert_ne!(a, t);
        },
        other => panic!("unexpected actions: {:?}", other),
    }
}

#[test]
fn unpause_command_for_live_transfer_resumes() {
    let mut m = Manager::new();
    let t = m.begin();
    let acts = m.handle_pending_messages(&vec![Message::Unpause(t)]);
    assert_eq!(acts, vec![Action::Resume(t.slot)]);
}

#[test]
fn poll_timeout_uses_engine_recommendation_or_default() {
    assert_eq!(poll_timeout(Some(25)), 25);
    assert_eq!(poll_timeout(None), DEFAULT_TIMEOUT_MS);
    assert_eq!(DEFAULT_TIMEOUT_MS, 1000);
}
