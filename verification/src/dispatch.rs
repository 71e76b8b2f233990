//! Bounded-batch dispatch step.
//!
//! One tick of the dispatch thread: first every queued registration is
//! admitted into the registry (subscribing on a key's first waiter), then at
//! most `EVENT_BATCH_CAP` pending change events are drained, each one
//! unsubscribing its channel and handing back the full waiter list of its
//! key.  The cap keeps one burst of events from starving newly arriving
//! registrations; the proof functions at the end state that, together with
//! the exactly-once and isolation guarantees of the drain.

use vstd::prelude::*;

use crate::codec::channel_name;
use crate::codec::channel_name_seq;
use crate::codec::decode_notify_payload;
use crate::codec::decoded_ok;
use crate::codec::encode_notify_payload;
use crate::codec::encoded_payload;
use crate::codec::has_space;
use crate::codec::lemma_alphanumeric_is_not_space;
use crate::codec::lemma_encode_injective;
use crate::codec::secret_seq;
use crate::codec::splits_at;
use crate::codec::valid_pair;
use crate::codec::view_secret;
use crate::notifier::NotifyRequest;
use crate::notifier::NotifyResponse;
use crate::registry::Registry;
use crate::registry::appended;
use crate::registry::waiters_for;
use crate::types::GeoJSON;
use crate::types::geojson_like;

verus! {

/// How many change events one tick may drain before it returns to the
/// registration queue.
pub const EVENT_BATCH_CAP: usize = 4;

/// The registry key a request registers under: the encoded session pair.
pub open spec fn request_key(req: NotifyRequest) -> Seq<char> {
    encoded_payload(req.client@, view_secret(req.secret))
}

/// The database channel a request's session listens on.
pub open spec fn request_channel(req: NotifyRequest) -> Seq<char> {
    channel_name_seq(req.client@, secret_seq(view_secret(req.secret)))
}

/// The request carries a validated session pair.
pub open spec fn valid_request(req: NotifyRequest) -> bool {
    valid_pair(req.client@, view_secret(req.secret))
}

/// Admit one registration: append it under its key and, when the key had no
/// waiters yet, return the channel the dispatcher must subscribe to.
pub fn register_waiter(reg: &mut Registry, req: NotifyRequest) -> (r: Option<String>)
    requires
        old(reg).wf(),
        valid_request(req),
    ensures
        final(reg).wf(),
        final(reg)@ == appended(old(reg)@, request_key(req), req),
        r is Some <==> !old(reg)@.contains_key(request_key(req)),
        match r {
            Some(ch) => ch@ == request_channel(req),
            None => true,
        },
{
    let key = encode_notify_payload(req.client.as_str(), &req.secret);
    let secret_str: &str = match &req.secret {
        Some(s) => s.as_str(),
        None => "",
    };
    proof {
        reveal_strlit("");
        assert(""@ =~= Seq::<char>::empty());
        lemma_alphanumeric_is_not_space(req.client@);
        lemma_alphanumeric_is_not_space(secret_str@);
    }
    let chan = channel_name(req.client.as_str(), secret_str);
    let is_new = reg.push_waiter(key, req);
    if is_new {
        Some(chan)
    } else {
        None
    }
}

/// The work one drained event leaves to the caller: the decoded session, the
/// channel to unsubscribe, and every waiter that was registered under the
/// event's key, in registration order.
pub struct EventWork {
    pub client: String,
    pub secret: Option<String>,
    pub channel: String,
    pub waiters: Vec<NotifyRequest>,
}

/// Drain one change event: decode its payload, drop the key's whole waiter
/// list from the registry, and name the channel to unsubscribe.  A payload
/// nobody encoded decodes to some session all the same; its key simply holds
/// no waiters.
pub fn process_event(reg: &mut Registry, payload: &str) -> (r: EventWork)
    requires
        old(reg).wf(),
    ensures
        final(reg).wf(),
        final(reg)@ == old(reg)@.remove(payload@),
        r.waiters@ == waiters_for(old(reg)@, payload@),
        decoded_ok(payload@, r.client@, view_secret(r.secret)),
        r.channel@ == channel_name_seq(r.client@, secret_seq(view_secret(r.secret))),
{
    let (client, secret) = decode_notify_payload(payload);
    proof {
        // Both decoded parts are space-free: the client stops at the first
        // space and the secret token stops at the next one.
        let p = payload@;
        if has_space(p) {
            let (i, e) = choose|i: int, e: int| splits_at(p, i, e, client@, view_secret(secret));
            assert(splits_at(p, i, e, client@, view_secret(secret)));
            assert forall|j: int| 0 <= j < client@.len() implies client@[j] != ' ' by {
                assert(client@[j] == p.subrange(0, i)[j]);
            }
            match &secret {
                Some(s) => {
                    assert(s@ == p.subrange(i + 1, e));
                    assert forall|j: int| 0 <= j < s@.len() implies s@[j] != ' ' by {
                        assert(s@[j] == p[i + 1 + j]);
                    }
                },
                None => {},
            }
        }
    }
    let secret_str: &str = match &secret {
        Some(s) => s.as_str(),
        None => "",
    };
    proof {
        reveal_strlit("");
        assert(""@ =~= Seq::<char>::empty());
    }
    let chan = channel_name(client.as_str(), secret_str);
    let waiters = reg.remove_key(payload);
    EventWork { client, secret, channel: chan, waiters }
}

/// The reply every waiter of a drained key receives for a given delta.
pub open spec fn response_matches(r: NotifyResponse, delta: Option<(GeoJSON, i32)>) -> bool {
    match delta {
        Some(d) => r.last == Some(d.1) && match r.geo {
            Some(g) => geojson_like(g, d.0),
            None => false,
        },
        None => r.geo is None && r.last is None,
    }
}

/// Pair every drained waiter, in order, with one copy of the delta reply —
/// or with the explicit no-data reply when the fetch found nothing, so no
/// waiter is ever left hanging.
pub fn make_replies(waiters: Vec<NotifyRequest>, delta: &Option<(GeoJSON, i32)>) -> (r: Vec<
    (NotifyRequest, NotifyResponse),
>)
    ensures
        r@.len() == waiters@.len(),
        forall|i: int|
            0 <= i < r@.len() ==> (#[trigger] r@[i]).0 == waiters@[i] && response_matches(
                r@[i].1,
                *delta,
            ),
{
    let mut out: Vec<(NotifyRequest, NotifyResponse)> = Vec::new();
    let mut rest = waiters;
    let ghost orig = rest@;
    while rest.len() > 0
        invariant
            out@.len() + rest@.len() == orig.len(),
            rest@ == orig.skip(out@.len() as int),
            forall|i: int|
                0 <= i < out@.len() ==> (#[trigger] out@[i]).0 == orig[i] && response_matches(
                    out@[i].1,
                    *delta,
                ),
        decreases rest@.len(),
    {
        let ghost done = out@.len() as int;
        let w = rest.remove(0);
        proof {
            assert(w == orig[done]);
            assert(rest@ =~= orig.skip(done + 1));
        }
        let resp = match delta {
            Some(d) => NotifyResponse { geo: Some(d.0.clone()), last: Some(d.1) },
            None => NotifyResponse { geo: None, last: None },
        };
        out.push((w, resp));
    }
    out
}

/// Send every prepared reply to its waiter's one-shot sink.  A sink whose
/// reader timed out and went away takes the send without effect.
pub fn deliver_replies(replies: Vec<(NotifyRequest, NotifyResponse)>) {
    let mut rest = replies;
    while rest.len() > 0
        decreases rest@.len(),
    {
        let pair = rest.remove(0);
        let _ = pair.0.respond.send(pair.1);
    }
}

/// The registry map after admitting a queue of registrations, in order.
pub open spec fn admit_all(
    m: Map<Seq<char>, Seq<NotifyRequest>>,
    reqs: Seq<NotifyRequest>,
) -> Map<Seq<char>, Seq<NotifyRequest>>
    decreases reqs.len(),
{
    if reqs.len() == 0 {
        m
    } else {
        appended(admit_all(m, reqs.drop_last()), request_key(reqs.last()), reqs.last())
    }
}

/// The channels newly subscribed while admitting a queue, in order: one for
/// each registration whose key had no waiters at its turn.
pub open spec fn new_channels(
    m: Map<Seq<char>, Seq<NotifyRequest>>,
    reqs: Seq<NotifyRequest>,
) -> Seq<Seq<char>>
    decreases reqs.len(),
{
    if reqs.len() == 0 {
        Seq::empty()
    } else {
        let prev = new_channels(m, reqs.drop_last());
        if admit_all(m, reqs.drop_last()).contains_key(request_key(reqs.last())) {
            prev
        } else {
            prev.push(request_channel(reqs.last()))
        }
    }
}

/// The registry map after draining a batch of events, in order.
pub open spec fn drain_all(m: Map<Seq<char>, Seq<NotifyRequest>>, evs: Seq<String>) -> Map<
    Seq<char>,
    Seq<NotifyRequest>,
>
    decreases evs.len(),
{
    if evs.len() == 0 {
        m
    } else {
        drain_all(m, evs.drop_last()).remove(evs.last()@)
    }
}

/// How many of `n` pending events one tick drains.
pub open spec fn batch_len(n: int) -> int {
    if n <= EVENT_BATCH_CAP {
        n
    } else {
        EVENT_BATCH_CAP as int
    }
}

/// Admit every queued registration, returning the channels to subscribe to,
/// in order.
pub fn admit_requests(reg: &mut Registry, requests: Vec<NotifyRequest>) -> (listens: Vec<String>)
    requires
        old(reg).wf(),
        forall|i: int| 0 <= i < requests@.len() ==> valid_request(#[trigger] requests@[i]),
    ensures
        final(reg).wf(),
        final(reg)@ == admit_all(old(reg)@, requests@),
        listens@.len() == new_channels(old(reg)@, requests@).len(),
        forall|i: int|
            0 <= i < listens@.len() ==> (#[trigger] listens@[i])@ == new_channels(
                old(reg)@,
                requests@,
            )[i],
{
    let ghost m0 = reg@;
    let ghost orig = requests@;
    let mut listens: Vec<String> = Vec::new();
    let mut rest = requests;
    while rest.len() > 0
        invariant
            reg.wf(),
            rest@.len() <= orig.len(),
            rest@ == orig.skip(orig.len() - rest@.len()),
            forall|i: int| 0 <= i < orig.len() ==> valid_request(#[trigger] orig[i]),
            reg@ == admit_all(m0, orig.take(orig.len() - rest@.len())),
            listens@.len() == new_channels(m0, orig.take(orig.len() - rest@.len())).len(),
            forall|i: int|
                0 <= i < listens@.len() ==> (#[trigger] listens@[i])@ == new_channels(
                    m0,
                    orig.take(orig.len() - rest@.len()),
                )[i],
        decreases rest@.len(),
    {
        let ghost done = orig.len() - rest@.len();
        let req = rest.remove(0);
        proof {
            assert(req == orig[done]);
            assert(rest@ =~= orig.skip(done + 1));
            assert(orig.take(done + 1).drop_last() =~= orig.take(done));
            assert(orig.take(done + 1).last() == orig[done]);
        }
        match register_waiter(reg, req) {
            Some(ch) => {
                listens.push(ch);
            },
            None => {},
        }
    }
    proof {
        assert(orig.take(orig.len() as int) =~= orig);
    }
    listens
}

/// What one drained event must look like given the registry `m0` at the
/// start of the event batch: the `i`-th event hands out exactly the waiters
/// its key held after the first `i` drains, with its decoded session and
/// channel.
pub open spec fn work_ok(
    m0: Map<Seq<char>, Seq<NotifyRequest>>,
    evs: Seq<String>,
    i: int,
    w: EventWork,
) -> bool {
    &&& w.waiters@ == waiters_for(drain_all(m0, evs.take(i)), evs[i]@)
    &&& decoded_ok(evs[i]@, w.client@, view_secret(w.secret))
    &&& w.channel@ == channel_name_seq(w.client@, secret_seq(view_secret(w.secret)))
}

/// Drain pending events up to the per-tick cap; events beyond the cap are
/// handed back untouched for the next tick.
pub fn drain_event_batch(reg: &mut Registry, events: Vec<String>) -> (r: (
    Vec<EventWork>,
    Vec<String>,
))
    requires
        old(reg).wf(),
    ensures
        final(reg).wf(),
        r.0@.len() == batch_len(events@.len() as int),
        final(reg)@ == drain_all(old(reg)@, events@.take(r.0@.len() as int)),
        forall|i: int| 0 <= i < r.0@.len() ==> work_ok(old(reg)@, events@, i, #[trigger] r.0@[i]),
        r.1@ == events@.skip(r.0@.len() as int),
{
    let ghost m0 = reg@;
    let ghost orig = events@;
    let mut work: Vec<EventWork> = Vec::new();
    let mut deferred: Vec<String> = Vec::new();
    let mut rest = events;
    while rest.len() > 0
        invariant
            reg.wf(),
            rest@.len() <= orig.len(),
            rest@ == orig.skip(orig.len() - rest@.len()),
            work@.len() == batch_len(orig.len() - rest@.len()),
            reg@ == drain_all(m0, orig.take(work@.len() as int)),
            forall|i: int| 0 <= i < work@.len() ==> work_ok(m0, orig, i, #[trigger] work@[i]),
            deferred@ == orig.take(orig.len() - rest@.len()).skip(work@.len() as int),
        decreases rest@.len(),
    {
        let ghost done = orig.len() - rest@.len();
        let ev = rest.remove(0);
        proof {
            assert(ev == orig[done]);
            assert(rest@ =~= orig.skip(done + 1));
        }
        if work.len() < EVENT_BATCH_CAP {
            let w = process_event(reg, ev.as_str());
            proof {
                assert(orig.take(done + 1).drop_last() =~= orig.take(done));
                assert(orig.take(done + 1).last() == orig[done]);
                assert(orig.take(done).skip(done) =~= Seq::<String>::empty());
                assert(orig.take(done + 1).skip(done + 1) =~= Seq::<String>::empty());
            }
            work.push(w);
        } else {
            deferred.push(ev);
            proof {
                assert(orig.take(done + 1).skip(work@.len() as int) =~= orig.take(done).skip(
                    work@.len() as int,
                ).push(orig[done]));
            }
        }
    }
    proof {
        assert(orig.take(orig.len() as int) =~= orig);
        assert(deferred@ =~= orig.skip(work@.len() as int));
    }
    (work, deferred)
}

/// One tick's decisions over the inputs available to it.
pub struct TickPlan {
    /// Channels to subscribe to, in order.
    pub listens: Vec<String>,
    /// Drained events, each with its channel to unsubscribe and its waiters.
    pub work: Vec<EventWork>,
    /// Events beyond the per-tick cap, untouched, in arrival order.
    pub deferred: Vec<String>,
}

/// One tick of the dispatch loop over plain inputs: admit every queued
/// registration first, then drain at most `EVENT_BATCH_CAP` events.
pub fn process_tick(reg: &mut Registry, requests: Vec<NotifyRequest>, events: Vec<String>) -> (r:
    TickPlan)
    requires
        old(reg).wf(),
        forall|i: int| 0 <= i < requests@.len() ==> valid_request(#[trigger] requests@[i]),
    ensures
        final(reg).wf(),
        r.listens@.len() == new_channels(old(reg)@, requests@).len(),
        forall|i: int|
            0 <= i < r.listens@.len() ==> (#[trigger] r.listens@[i])@ == new_channels(
                old(reg)@,
                requests@,
            )[i],
        r.work@.len() == batch_len(events@.len() as int),
        final(reg)@ == drain_all(
            admit_all(old(reg)@, requests@),
            events@.take(r.work@.len() as int),
        ),
        forall|i: int|
            0 <= i < r.work@.len() ==> work_ok(
                admit_all(old(reg)@, requests@),
                events@,
                i,
                #[trigger] r.work@[i],
            ),
        r.deferred@ == events@.skip(r.work@.len() as int),
{
    let listens = admit_requests(reg, requests);
    let (work, deferred) = drain_event_batch(reg, events);
    TickPlan { listens, work, deferred }
}

/// Exactly-once reply: registering a waiter appends it once to its key's
/// list; the event that drains the key hands that whole list out — one reply
/// per waiter, by `make_replies` — and empties the key, so a later event for
/// the same key finds nobody to reply to.
pub proof fn lemma_exactly_once_reply(m: Map<Seq<char>, Seq<NotifyRequest>>, req: NotifyRequest)
    ensures
        waiters_for(appended(m, request_key(req), req), request_key(req)) == waiters_for(
            m,
            request_key(req),
        ).push(req),
        waiters_for(appended(m, request_key(req), req).remove(request_key(req)), request_key(req))
            == Seq::<NotifyRequest>::empty(),
{
    let k = request_key(req);
    if !m.contains_key(k) {
        assert(seq![req] =~= waiters_for(m, k).push(req));
    }
}

/// No cross-key leakage: distinct sessions have distinct keys, and draining
/// one key neither hands out nor disturbs the waiters of any other.
pub proof fn lemma_no_cross_key_leakage(
    m: Map<Seq<char>, Seq<NotifyRequest>>,
    c1: Seq<char>,
    s1: Option<Seq<char>>,
    c2: Seq<char>,
    s2: Option<Seq<char>>,
)
    requires
        valid_pair(c1, s1),
        valid_pair(c2, s2),
        c1 != c2 || s1 != s2,
    ensures
        encoded_payload(c1, s1) != encoded_payload(c2, s2),
        waiters_for(m.remove(encoded_payload(c1, s1)), encoded_payload(c2, s2)) == waiters_for(
            m,
            encoded_payload(c2, s2),
        ),
{
    if encoded_payload(c1, s1) == encoded_payload(c2, s2) {
        lemma_encode_injective(c1, s1, c2, s2);
    }
}

/// A key sits in the registry after admissions exactly when it was there
/// before or some admitted registration carries it.
proof fn lemma_admit_all_membership(
    m: Map<Seq<char>, Seq<NotifyRequest>>,
    reqs: Seq<NotifyRequest>,
    k: Seq<char>,
)
    ensures
        admit_all(m, reqs).contains_key(k) <==> (m.contains_key(k) || exists|j: int|
            0 <= j < reqs.len() && request_key(#[trigger] reqs[j]) == k),
    decreases reqs.len(),
{
    if reqs.len() > 0 {
        lemma_admit_all_membership(m, reqs.drop_last(), k);
        if admit_all(m, reqs.drop_last()).contains_key(k) || request_key(reqs.last()) == k {
            assert(admit_all(m, reqs).contains_key(k));
        }
        if exists|j: int| 0 <= j < reqs.len() && request_key(#[trigger] reqs[j]) == k {
            let j = choose|j: int| 0 <= j < reqs.len() && request_key(#[trigger] reqs[j]) == k;
            if j < reqs.len() - 1 {
                assert(request_key(reqs.drop_last()[j]) == k);
            }
        }
    }
}

/// Once admitted, a registration sits in its key's waiter list until an
/// event for that key drains it.
proof fn lemma_admit_all_waiter(
    m: Map<Seq<char>, Seq<NotifyRequest>>,
    reqs: Seq<NotifyRequest>,
    i: int,
)
    requires
        0 <= i < reqs.len(),
    ensures
        waiters_for(admit_all(m, reqs), request_key(reqs[i])).contains(reqs[i]),
    decreases reqs.len(),
{
    let k = request_key(reqs[i]);
    let last = reqs.last();
    let prev = admit_all(m, reqs.drop_last());
    if i == reqs.len() - 1 {
        let w = waiters_for(prev, k).push(last);
        assert(w[w.len() - 1] == last);
        assert(waiters_for(admit_all(m, reqs), k) == w);
    } else {
        lemma_admit_all_waiter(m, reqs.drop_last(), i);
        assert(reqs.drop_last()[i] == reqs[i]);
        let wprev = waiters_for(prev, k);
        let widx = choose|x: int| 0 <= x < wprev.len() && wprev[x] == reqs[i];
        if request_key(last) == k {
            assert(waiters_for(admit_all(m, reqs), k)[widx] == reqs[i]);
        } else {
            assert(waiters_for(admit_all(m, reqs), k) == wprev);
        }
    }
}

/// The first registration of a fresh key gets its channel subscribed.
proof fn lemma_new_channels_contains(
    m: Map<Seq<char>, Seq<NotifyRequest>>,
    reqs: Seq<NotifyRequest>,
    i: int,
)
    requires
        0 <= i < reqs.len(),
        !m.contains_key(request_key(reqs[i])),
        forall|j: int| 0 <= j < i ==> request_key(#[trigger] reqs[j]) != request_key(reqs[i]),
    ensures
        new_channels(m, reqs).contains(request_channel(reqs[i])),
    decreases reqs.len(),
{
    let k = request_key(reqs[i]);
    if i == reqs.len() - 1 {
        lemma_admit_all_membership(m, reqs.drop_last(), k);
        assert forall|j: int| 0 <= j < reqs.drop_last().len() implies request_key(
            #[trigger] reqs.drop_last()[j],
        ) != k by {
            assert(reqs.drop_last()[j] == reqs[j]);
        }
        assert(!admit_all(m, reqs.drop_last()).contains_key(k));
        let w = new_channels(m, reqs);
        assert(w[w.len() - 1] == request_channel(reqs[i]));
    } else {
        lemma_new_channels_contains(m, reqs.drop_last(), i);
        assert(reqs.drop_last()[i] == reqs[i]);
        let prev = new_channels(m, reqs.drop_last());
        let widx = choose|x: int|
            0 <= x < prev.len() && prev[x] == request_channel(reqs.drop_last()[i]);
        assert(new_channels(m, reqs)[widx] == request_channel(reqs[i]));
    }
}

/// Draining events whose payloads all differ from `k` leaves `k` untouched.
proof fn lemma_drain_all_other(
    m: Map<Seq<char>, Seq<NotifyRequest>>,
    evs: Seq<String>,
    k: Seq<char>,
)
    requires
        forall|j: int| 0 <= j < evs.len() ==> (#[trigger] evs[j])@ != k,
    ensures
        drain_all(m, evs).contains_key(k) == m.contains_key(k),
        waiters_for(drain_all(m, evs), k) == waiters_for(m, k),
    decreases evs.len(),
{
    if evs.len() > 0 {
        assert forall|j: int| 0 <= j < evs.drop_last().len() implies (#[trigger] evs.drop_last()[j])@
            != k by {
            assert(evs.drop_last()[j] == evs[j]);
        }
        lemma_drain_all_other(m, evs.drop_last(), k);
    }
}

/// Fairness: a tick admits every queued registration before it touches the
/// event backlog, so a registration for a fresh key is subscribed within the
/// same tick — its channel is in the tick's subscription list — and events
/// for other keys, however many, cannot drain it.
pub proof fn lemma_registration_not_starved(
    m: Map<Seq<char>, Seq<NotifyRequest>>,
    reqs: Seq<NotifyRequest>,
    evs: Seq<String>,
    i: int,
)
    requires
        0 <= i < reqs.len(),
        !m.contains_key(request_key(reqs[i])),
        forall|j: int| 0 <= j < i ==> request_key(#[trigger] reqs[j]) != request_key(reqs[i]),
        forall|j: int| 0 <= j < evs.len() ==> (#[trigger] evs[j])@ != request_key(reqs[i]),
    ensures
        new_channels(m, reqs).contains(request_channel(reqs[i])),
        drain_all(admit_all(m, reqs), evs).contains_key(request_key(reqs[i])),
        waiters_for(drain_all(admit_all(m, reqs), evs), request_key(reqs[i])).contains(reqs[i]),
{
    let k = request_key(reqs[i]);
    lemma_new_channels_contains(m, reqs, i);
    lemma_admit_all_waiter(m, reqs, i);
    lemma_admit_all_membership(m, reqs, k);
    lemma_drain_all_other(admit_all(m, reqs), evs, k);
}

} // verus!
