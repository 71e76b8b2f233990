//! Live-update notification plumbing.
//!
//! A web-facing handler that wants to wait for the next point builds a
//! `NotifyRequest` carrying a one-shot reply sender and hands it to the
//! dispatch thread through the `NotifyManager`'s queue, then blocks on its
//! private receiver with a bounded timeout.  The ingestion path publishes a
//! change through `send_notification`, whose command text is built by the
//! verified codec so that no unvalidated text ever reaches the database's
//! text protocol.

use vstd::prelude::*;

use crate::codec::channel_name;
use crate::codec::channel_name_seq;
use crate::codec::encode_notify_payload;
use crate::codec::encoded_payload;
use crate::codec::lemma_alphanumeric_is_not_space;
use crate::codec::secret_seq;
use crate::codec::valid_pair;
use crate::codec::view_secret;
use crate::db::DBQuery;
use crate::db::db_execute;
use crate::types::GeoJSON;
use crate::types::LiveUpdate;
use std::sync::Arc;
use std::sync::Mutex;
use std::sync::mpsc::Receiver;
use std::sync::mpsc::SendError;
use std::sync::mpsc::Sender;
use vstd::string::StringExecFns;

verus! {

#[verifier::external_type_specification]
#[verifier::external_body]
#[verifier::reject_recursive_types(T)]
pub struct ExSender<T>(Sender<T>);

#[verifier::external_type_specification]
#[verifier::external_body]
#[verifier::reject_recursive_types(T)]
pub struct ExReceiver<T>(Receiver<T>);

#[verifier::external_type_specification]
#[verifier::external_body]
#[verifier::reject_recursive_types(T)]
pub struct ExSendError<T>(SendError<T>);

#[verifier::external_type_specification]
#[verifier::external_body]
#[verifier::reject_recursive_types(T)]
pub struct ExMutex<T: ?Sized>(Mutex<T>);

pub assume_specification<T>[ std::sync::mpsc::channel::<T> ]() -> (r: (Sender<T>, Receiver<T>));

pub assume_specification<T>[ Mutex::<T>::new ](t: T) -> (m: Mutex<T>);

/// A `Send` sender.
#[derive(Clone)]
#[verifier::reject_recursive_types(T)]
pub struct SendableSender<T> {
    pub sender: Arc<Mutex<Sender<T>>>,
}

impl<T> SendableSender<T> {
    /// Relies on std's `Mutex::lock` and `mpsc::Sender::send`: queues the
    /// value for the single receiver; the error hands the value back when the
    /// receiver is gone.
    #[verifier::external_body]
    pub fn send(&self, arg: T) -> (r: Result<(), SendError<T>>) {
        match self.sender.lock() {
            Ok(guard) => guard.send(arg),
            Err(poisoned) => poisoned.into_inner().send(arg),
        }
    }
}

/// Request of a web client thread to the notifier thread.
pub struct NotifyRequest {
    pub client: String,
    pub secret: Option<String>,
    pub respond: SendableSender<NotifyResponse>,
}

/// Response from the notifier thread to a web client thread: the GeoJSON
/// object containing the update and the `last` page token.
pub struct NotifyResponse {
    pub geo: Option<GeoJSON>,
    pub last: Option<i32>,
}

/// Relies on std's `Receiver::recv_timeout`: waits up to `secs` seconds for
/// a reply; nothing when the wait timed out or the sender is gone.
#[verifier::external_body]
fn recv_reply_with_timeout(rx: &Receiver<NotifyResponse>, secs: u64) -> (r: Option<NotifyResponse>) {
    rx.recv_timeout(std::time::Duration::new(secs, 0)).ok()
}

/// How long a live-wait blocks when the caller supplies no timeout.
pub const DEFAULT_WAIT_SECS: u64 = 30;

/// The wait bound a live-wait runs under: the caller's, or the default.
pub fn effective_timeout_secs(timeout: Option<u64>) -> (r: u64)
    ensures
        r == match timeout {
            Some(t) => t,
            None => DEFAULT_WAIT_SECS,
        },
{
    match timeout {
        Some(t) => t,
        None => DEFAULT_WAIT_SECS,
    }
}

/// The retryable no-rows reply: no rows, no cursor, the no-rows message, so
/// the caller can re-issue the same wait.
pub open spec fn is_no_rows_reply(r: LiveUpdate) -> bool {
    &&& r.last is None
    &&& r.geo is None
    &&& match r.error {
        Some(m) => m@ == "no new rows"@,
        None => false,
    }
}

/// Turn whatever the wait yielded into the caller's reply: a delivered
/// update's rows and cursor pass through unchanged with no error, while a
/// timeout, a lost dispatcher, or a delivered no-data reply all become the
/// retryable no-rows result.
pub fn settle_wait(client: String, reply: Option<NotifyResponse>) -> (r: LiveUpdate)
    ensures
        r.typ@ == "GeoHubUpdate"@,
        r.client == client,
        match reply {
            Some(resp) => {
                if resp.geo is Some || resp.last is Some {
                    r.last == resp.last && r.geo == resp.geo && r.error is None
                } else {
                    is_no_rows_reply(r)
                }
            },
            None => is_no_rows_reply(r),
        },
{
    match reply {
        Some(response) => {
            if response.geo.is_some() || response.last.is_some() {
                LiveUpdate::new(client, response.last, response.geo, None)
            } else {
                LiveUpdate::new(client, None, None, Some("no new rows".to_owned()))
            }
        },
        None => LiveUpdate::new(client, None, None, Some("no new rows".to_owned())),
    }
}

/// Handle on the queue into the dispatch thread.
pub struct NotifyManager(pub SendableSender<NotifyRequest>);

impl NotifyManager {
    /// Register a live-wait for `client` and block until the dispatch thread
    /// replies or the timeout passes.  What came back is settled by
    /// `settle_wait`, whose contract fixes the result for every possible
    /// reply: an update passes through unchanged, anything else is the
    /// retryable no-rows result.
    pub fn wait_for_notification(
        &self,
        client: String,
        secret: Option<String>,
        timeout: Option<u64>,
    ) -> (r: LiveUpdate)
        ensures
            r.typ@ == "GeoHubUpdate"@,
            r.client == client,
            match r.error {
                Some(m) => m@ == "no new rows"@ && r.geo is None && r.last is None,
                None => r.geo is Some || r.last is Some,
            },
    {
        let (send, recv) = std::sync::mpsc::channel();
        let send = SendableSender { sender: Arc::new(Mutex::new(send)) };

        let req = NotifyRequest { client: client.clone(), secret, respond: send };
        let _ = self.0.send(req);

        let reply = recv_reply_with_timeout(&recv, effective_timeout_secs(timeout));
        settle_wait(client, reply)
    }

    /// Publish a change notification for `(client, secret)`: one NOTIFY
    /// command on the session's channel whose payload is the encoded pair.
    /// The command text is the contracted part, fixed by `notify_command`;
    /// the execution result comes back as the database gave it.
    pub fn send_notification(
        &self,
        dbq: &mut DBQuery,
        client: &str,
        secret: &Option<String>,
    ) -> (r: Result<u64, postgres::Error>)
        requires
            valid_pair(client@, view_secret(*secret)),
    {
        let cmd = notify_command(client, secret);
        db_execute(&mut dbq.0, cmd.as_str())
    }
}

/// The exact text of the publish command for a session.
pub open spec fn notify_command_seq(client: Seq<char>, secret: Option<Seq<char>>) -> Seq<char> {
    "NOTIFY "@ + channel_name_seq(client, secret_seq(secret)) + ", '"@ + encoded_payload(
        client,
        secret,
    ) + "'"@
}

/// Build the publish command for a session: `NOTIFY <channel>, '<payload>'`,
/// with channel and payload coming from the verified codec.
pub fn notify_command(client: &str, secret: &Option<String>) -> (r: String)
    requires
        valid_pair(client@, view_secret(*secret)),
    ensures
        r@ == notify_command_seq(client@, view_secret(*secret)),
{
    let secret_str: &str = match secret {
        Some(s) => s.as_str(),
        None => "",
    };
    proof {
        reveal_strlit("");
        assert(""@ =~= Seq::<char>::empty());
        lemma_alphanumeric_is_not_space(client@);
        lemma_alphanumeric_is_not_space(secret_str@);
        assert(secret_str@ == secret_seq(view_secret(*secret)));
    }
    let chan = channel_name(client, secret_str);
    let payload = encode_notify_payload(client, secret);
    let mut cmd = "NOTIFY ".to_owned();
    cmd.append(chan.as_str());
    cmd.append(", '");
    cmd.append(payload.as_str());
    cmd.append("'");
    proof {
        assert(cmd@ =~= notify_command_seq(client@, view_secret(*secret)));
    }
    cmd
}

} // verus!
