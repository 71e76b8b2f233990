use std::sync::Arc;
use std::sync::Mutex;
use std::sync::mpsc;

use geohub::notifier::SendableSender;
use geohub::notifier::notify_command;

#[test]
fn notify_command_with_secret() {
    let cmd = notify_command("bob", &Some("xyz".to_string()));
    assert_eq!(cmd, "NOTIFY geohubclient_update_bob_xyz, 'bob xyz'");
}

#[test]
fn notify_command_without_secret() {
    let cmd = notify_command("alice", &None);
    assert_eq!(cmd, "NOTIFY geohubclient_update_alice_, 'alice '");
}

#[test]
fn sendable_sender_delivers() {
    let (tx, rx) = mpsc::channel();
    let sender = SendableSender { sender: Arc::new(Mutex::new(tx)) };
    assert!(sender.send(42u32).is_ok());
    let cloned = sender.clone();
    assert!(cloned.send(7u32).is_ok());
    assert_eq!(rx.try_recv(), Ok(42));
    assert_eq!(rx.try_recv(), Ok(7));
}

#[test]
fn sendable_sender_reports_lost_receiver() {
    let (tx, rx) = mpsc::channel();
    let sender = SendableSender { sender: Arc::new(Mutex::new(tx)) };
    drop(rx);
    assert!(sender.send(1u32).is_err());
}
