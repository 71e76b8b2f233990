use std::sync::Arc;
use std::sync::Mutex;
use std::sync::mpsc;

use geohub::codec::encode_notify_payload;
use geohub::dispatch::deliver_replies;
use geohub::dispatch::make_replies;
use geohub::dispatch::process_event;
use geohub::dispatch::register_waiter;
use geohub::notifier::DEFAULT_WAIT_SECS;
use geohub::notifier::NotifyManager;
use geohub::notifier::NotifyRequest;
use geohub::notifier::NotifyResponse;
use geohub::notifier::SendableSender;
use geohub::notifier::effective_timeout_secs;
use geohub::notifier::settle_wait;
use geohub::registry::Registry;
use geohub::types::GeoPoint;
use geohub::types::LiveUpdate;
use geohub::types::delta_from_points;

fn waiter(client: &str, secret: Option<&str>) -> (NotifyRequest, mpsc::Receiver<NotifyResponse>) {
    let (tx, rx) = mpsc::channel();
    let req = NotifyRequest {
        client: client.to_string(),
        secret: secret.map(|s| s.to_string()),
        respond: SendableSender { sender: Arc::new(Mutex::new(tx)) },
    };
    (req, rx)
}

#[test]
fn alice_gets_her_point() {
    // Client alice, no secret, registers a live-wait.
    let mut reg = Registry::new();
    let (req, rx) = waiter("alice", None);
    let listen = register_waiter(&mut reg, req);
    assert_eq!(listen, Some("geohubclient_update_alice_".to_string()));

    // A concurrent insert of one point (lat=1.0, long=2.0) for alice fires
    // a notification carrying the encoded session.
    let point = GeoPoint {
        id: Some(1),
        lat_e6: 1_000_000,
        long_e6: 2_000_000,
        spd_e3: None,
        ele_e3: None,
        accuracy_e3: None,
        time_ms: 1_606_767_156_444,
        note: None,
    };
    let delta = delta_from_points(vec![point]);
    let payload = encode_notify_payload("alice", &None);

    let work = process_event(&mut reg, &payload);
    assert_eq!(work.channel, "geohubclient_update_alice_");
    let replies = make_replies(work.waiters, &delta);
    deliver_replies(replies);

    // The waiting call sees exactly one point with those coordinates and a
    // cursor equal to the point's identifier.
    let response = rx.try_recv().expect("the waiter must be woken");
    assert_eq!(response.last, Some(1));
    let geo = response.geo.as_ref().expect("an update carries the rows");
    assert_eq!(geo.features.len(), 1);
    assert_eq!(geo.features[0].geometry.coordinates, (2_000_000, 1_000_000));
    assert_eq!(geo.features[0].properties.id, Some(1));

    // And the handler would wrap it up unchanged.
    let update = LiveUpdate::new("alice".to_string(), response.last, response.geo, None);
    assert_eq!(update.typ, "GeoHubUpdate");
    assert_eq!(update.client, "alice");
    assert_eq!(update.last, Some(1));
    assert!(update.error.is_none());

    // Exactly once: no second reply arrives.
    assert!(rx.try_recv().is_err());
}

#[test]
fn only_the_matching_secret_wakes() {
    // bob/xyz and bob/abc both register live-waits concurrently.
    let mut reg = Registry::new();
    let (req_xyz, rx_xyz) = waiter("bob", Some("xyz"));
    let (req_abc, rx_abc) = waiter("bob", Some("abc"));
    assert_eq!(
        register_waiter(&mut reg, req_xyz),
        Some("geohubclient_update_bob_xyz".to_string())
    );
    assert_eq!(
        register_waiter(&mut reg, req_abc),
        Some("geohubclient_update_bob_abc".to_string())
    );

    // An insert tagged with secret xyz fires.
    let payload = encode_notify_payload("bob", &Some("xyz".to_string()));
    let work = process_event(&mut reg, &payload);
    assert_eq!(work.waiters.len(), 1);
    let replies = make_replies(work.waiters, &None);
    deliver_replies(replies);

    // Only the xyz waiter wakes; the abc waiter stays blocked and stays
    // registered.
    assert!(rx_xyz.try_recv().is_ok());
    assert!(rx_abc.try_recv().is_err());
    let abc_key = encode_notify_payload("bob", &Some("abc".to_string()));
    assert!(reg.contains_key(&abc_key));
}

#[test]
fn settled_update_passes_rows_and_cursor_through() {
    let point = GeoPoint {
        id: Some(9),
        lat_e6: 1_000_000,
        long_e6: 2_000_000,
        spd_e3: None,
        ele_e3: None,
        accuracy_e3: None,
        time_ms: 0,
        note: None,
    };
    let (geo, last) = delta_from_points(vec![point]).expect("one row");
    let update = settle_wait(
        "alice".to_string(),
        Some(NotifyResponse { geo: Some(geo), last: Some(last) }),
    );
    assert_eq!(update.typ, "GeoHubUpdate");
    assert_eq!(update.client, "alice");
    assert_eq!(update.last, Some(9));
    let geo = update.geo.expect("the delivered rows come through");
    assert_eq!(geo.features.len(), 1);
    assert_eq!(geo.features[0].geometry.coordinates, (2_000_000, 1_000_000));
    assert!(update.error.is_none());
}

#[test]
fn settled_empty_reply_is_the_no_rows_result() {
    let update = settle_wait("alice".to_string(), Some(NotifyResponse { geo: None, last: None }));
    assert_eq!(update.error, Some("no new rows".to_string()));
    assert_eq!(update.last, None);
    assert!(update.geo.is_none());
}

#[test]
fn settled_timeout_is_the_no_rows_result() {
    let update = settle_wait("alice".to_string(), None);
    assert_eq!(update.error, Some("no new rows".to_string()));
    assert_eq!(update.last, None);
    assert!(update.geo.is_none());
}

#[test]
fn default_timeout_is_thirty_seconds() {
    assert_eq!(DEFAULT_WAIT_SECS, 30);
    assert_eq!(effective_timeout_secs(None), 30);
    assert_eq!(effective_timeout_secs(Some(5)), 5);
}

#[test]
fn wait_times_out_with_no_rows_message() {
    // A manager whose dispatch queue nobody drains: the wait must come back
    // by itself, with the cursor unchanged and the retryable no-rows result.
    let (tx, dispatch_rx) = mpsc::channel();
    let manager = NotifyManager(SendableSender { sender: Arc::new(Mutex::new(tx)) });

    let update = manager.wait_for_notification("alice".to_string(), None, Some(1));
    assert_eq!(update.typ, "GeoHubUpdate");
    assert_eq!(update.client, "alice");
    assert_eq!(update.error, Some("no new rows".to_string()));
    assert_eq!(update.last, None);
    assert!(update.geo.is_none());

    // The registration itself did reach the queue.
    let queued = dispatch_rx.try_recv().expect("the request was queued");
    assert_eq!(queued.client, "alice");
    assert_eq!(queued.secret, None);
}
