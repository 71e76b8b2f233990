use std::sync::Arc;
use std::sync::Mutex;
use std::sync::mpsc;

use geohub::codec::encode_notify_payload;
use geohub::dispatch::EVENT_BATCH_CAP;
use geohub::dispatch::make_replies;
use geohub::dispatch::process_event;
use geohub::dispatch::process_tick;
use geohub::dispatch::register_waiter;
use geohub::notifier::NotifyRequest;
use geohub::notifier::NotifyResponse;
use geohub::registry::Registry;
use geohub::types::GeoPoint;
use geohub::types::delta_from_points;

fn waiter(client: &str, secret: Option<&str>) -> (NotifyRequest, mpsc::Receiver<NotifyResponse>) {
    let (tx, rx) = mpsc::channel();
    let req = NotifyRequest {
        client: client.to_string(),
        secret: secret.map(|s| s.to_string()),
        respond: geohub::notifier::SendableSender { sender: Arc::new(Mutex::new(tx)) },
    };
    (req, rx)
}

#[test]
fn first_waiter_subscribes() {
    let mut reg = Registry::new();
    let (req, _rx) = waiter("alice", None);
    let listen = register_waiter(&mut reg, req);
    assert_eq!(listen, Some("geohubclient_update_alice_".to_string()));
}

#[test]
fn second_waiter_does_not_resubscribe() {
    let mut reg = Registry::new();
    let (req1, _rx1) = waiter("alice", None);
    let (req2, _rx2) = waiter("alice", None);
    assert!(register_waiter(&mut reg, req1).is_some());
    assert!(register_waiter(&mut reg, req2).is_none());
}

#[test]
fn event_drains_all_waiters_of_its_key() {
    let mut reg = Registry::new();
    let (req1, _rx1) = waiter("alice", None);
    let (req2, _rx2) = waiter("alice", None);
    register_waiter(&mut reg, req1);
    register_waiter(&mut reg, req2);
    let key = encode_notify_payload("alice", &None);
    let work = process_event(&mut reg, &key);
    assert_eq!(work.client, "alice");
    assert_eq!(work.secret, Some("".to_string()));
    assert_eq!(work.channel, "geohubclient_update_alice_");
    assert_eq!(work.waiters.len(), 2);
    assert!(!reg.contains_key(&key));
}

#[test]
fn second_event_finds_no_waiter() {
    let mut reg = Registry::new();
    let (req, _rx) = waiter("alice", None);
    register_waiter(&mut reg, req);
    let key = encode_notify_payload("alice", &None);
    let first = process_event(&mut reg, &key);
    assert_eq!(first.waiters.len(), 1);
    let second = process_event(&mut reg, &key);
    assert_eq!(second.waiters.len(), 0);
}

#[test]
fn event_leaves_other_keys_alone() {
    let mut reg = Registry::new();
    let (alice, _rx1) = waiter("alice", None);
    let (bob, _rx2) = waiter("bob", None);
    register_waiter(&mut reg, alice);
    register_waiter(&mut reg, bob);
    let alice_key = encode_notify_payload("alice", &None);
    let bob_key = encode_notify_payload("bob", &None);
    let work = process_event(&mut reg, &alice_key);
    assert_eq!(work.waiters.len(), 1);
    assert_eq!(work.waiters[0].client, "alice");
    assert!(reg.contains_key(&bob_key));
}

#[test]
fn replies_pair_each_waiter_once() {
    let (req1, _rx1) = waiter("alice", None);
    let (req2, _rx2) = waiter("alice", None);
    let delta = delta_from_points(vec![GeoPoint {
        id: Some(11),
        lat_e6: 0,
        long_e6: 0,
        spd_e3: None,
        ele_e3: None,
        accuracy_e3: None,
        time_ms: 0,
        note: None,
    }]);
    let replies = make_replies(vec![req1, req2], &delta);
    assert_eq!(replies.len(), 2);
    for (_, resp) in &replies {
        assert_eq!(resp.last, Some(11));
        assert!(resp.geo.is_some());
    }
}

#[test]
fn failed_fetch_still_replies_to_everyone() {
    let (req1, _rx1) = waiter("alice", None);
    let (req2, _rx2) = waiter("alice", None);
    let replies = make_replies(vec![req1, req2], &None);
    assert_eq!(replies.len(), 2);
    for (_, resp) in &replies {
        assert_eq!(resp.last, None);
        assert!(resp.geo.is_none());
    }
}

#[test]
fn burst_of_events_does_not_starve_registration() {
    let mut reg = Registry::new();
    // More pending events than one tick may drain, none of them for the
    // newly registering client.
    let events: Vec<String> = vec![
        "c1 ".to_string(),
        "c2 ".to_string(),
        "c3 ".to_string(),
        "c4 ".to_string(),
        "c5 ".to_string(),
    ];
    assert!(events.len() > EVENT_BATCH_CAP);
    let (req, _rx) = waiter("newclient", None);
    let plan = process_tick(&mut reg, vec![req], events);
    // The registration was admitted and subscribed within this tick.
    assert_eq!(plan.listens, vec!["geohubclient_update_newclient_".to_string()]);
    let key = encode_notify_payload("newclient", &None);
    assert!(reg.contains_key(&key));
    // The tick drained only the capped batch and deferred the rest.
    assert_eq!(plan.work.len(), EVENT_BATCH_CAP);
    assert_eq!(plan.deferred, vec!["c5 ".to_string()]);
}

#[test]
fn deferred_events_drain_next_tick() {
    let mut reg = Registry::new();
    let events: Vec<String> = (1..=6).map(|i| format!("c{} ", i)).collect();
    let plan = process_tick(&mut reg, Vec::new(), events);
    assert_eq!(plan.work.len(), EVENT_BATCH_CAP);
    assert_eq!(plan.deferred, vec!["c5 ".to_string(), "c6 ".to_string()]);
    let next = process_tick(&mut reg, Vec::new(), plan.deferred);
    assert_eq!(next.work.len(), 2);
    assert!(next.deferred.is_empty());
}

#[test]
fn tick_admits_before_draining() {
    let mut reg = Registry::new();
    let (req, _rx) = waiter("alice", None);
    let key = encode_notify_payload("alice", &None);
    // The tick's own event batch already drains the registration admitted in
    // the same tick.
    let plan = process_tick(&mut reg, vec![req], vec![key.clone()]);
    assert_eq!(plan.work.len(), 1);
    assert_eq!(plan.work[0].waiters.len(), 1);
    assert!(!reg.contains_key(&key));
}
