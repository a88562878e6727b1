use fireplan_alert::watcher::{entry_action, step, WatcherAction, WatcherEvent, WatcherState};

#[test]
fn reconnect_after_auth_transport_failure() {
    let s = step(WatcherState::Connected, WatcherEvent::AuthTransportFailed);
    assert!(matches!(s.next, WatcherState::Disconnected));
    assert_eq!(s.backoff_secs, 10);
    assert!(!s.fatal);
    let s = step(s.next, WatcherEvent::ConnectOk);
    assert!(matches!(s.next, WatcherState::Connected));
    let s = step(s.next, WatcherEvent::AuthOk);
    assert!(matches!(s.next, WatcherState::Authenticated));
    let s = step(s.next, WatcherEvent::SelectOk);
    assert!(matches!(s.next, WatcherState::MailboxSelected));
    assert_eq!(entry_action(&s.next), WatcherAction::SearchUnseen);
}

#[test]
fn rejected_credentials_are_fatal() {
    let s = step(WatcherState::Connected, WatcherEvent::AuthRejected);
    assert!(s.fatal);
}

#[test]
fn connect_failure_backs_off_thirty_seconds() {
    let s = step(WatcherState::Disconnected, WatcherEvent::ConnectFailed);
    assert!(matches!(s.next, WatcherState::Disconnected));
    assert_eq!(s.backoff_secs, 30);
    assert!(!s.fatal);
}

#[test]
fn select_failure_disconnects_after_ten_seconds() {
    let s = step(WatcherState::Authenticated, WatcherEvent::SelectFailed);
    assert!(matches!(s.next, WatcherState::Disconnected));
    assert_eq!(s.backoff_secs, 10);
}

#[test]
fn empty_search_enters_idle() {
    let s = step(
        WatcherState::MailboxSelected,
        WatcherEvent::SearchOk { unseen: vec![] },
    );
    assert!(matches!(s.next, WatcherState::Idling));
    assert_eq!(entry_action(&s.next), WatcherAction::EngageIdleAndWait);
}

#[test]
fn fetch_loop_processes_batch_in_order_then_idles() {
    let s = step(
        WatcherState::MailboxSelected,
        WatcherEvent::SearchOk { unseen: vec![4, 9] },
    );
    assert_eq!(entry_action(&s.next), WatcherAction::ProcessMessage(4));
    let s = step(s.next, WatcherEvent::MessageHandled);
    assert_eq!(entry_action(&s.next), WatcherAction::ProcessMessage(9));
    let s = step(s.next, WatcherEvent::MessageHandled);
    assert!(matches!(s.next, WatcherState::Idling));
    assert_eq!(s.backoff_secs, 0);
}

#[test]
fn idle_engage_failure_retries_idle_after_a_minute() {
    let s = step(WatcherState::Idling, WatcherEvent::IdleEngageFailed);
    assert!(matches!(s.next, WatcherState::Idling));
    assert_eq!(s.backoff_secs, 60);
}

#[test]
fn idle_wake_reenters_fetch_loop() {
    let s = step(WatcherState::Idling, WatcherEvent::IdleWaitOk { changed: true });
    assert!(matches!(s.next, WatcherState::MailboxSelected));
    let s = step(WatcherState::Idling, WatcherEvent::IdleWaitOk { changed: false });
    assert!(matches!(s.next, WatcherState::MailboxSelected));
    assert_eq!(s.backoff_secs, 0);
}

#[test]
fn idle_wait_failure_disconnects() {
    let s = step(WatcherState::Idling, WatcherEvent::IdleWaitFailed);
    assert!(matches!(s.next, WatcherState::Disconnected));
    assert_eq!(s.backoff_secs, 10);
}

#[test]
fn search_failure_disconnects() {
    let s = step(WatcherState::MailboxSelected, WatcherEvent::SearchFailed);
    assert!(matches!(s.next, WatcherState::Disconnected));
    assert_eq!(s.backoff_secs, 10);
}
