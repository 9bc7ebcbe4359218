use vstd::prelude::*;
use crate::event::Event;
use crate::filter::{Filter, any_matches, subscription_matches};
use crate::message::{ClientMessage, Outbound, RelayMessage};
use crate::registry::Registry;
use crate::verify::{VerifyError, verification, verify_event};

verus! {

/// The smaller of two optional limits; an absent limit bounds nothing.
pub open spec fn tighter(a: Option<usize>, b: Option<usize>) -> Option<usize> {
    match (a, b) {
        (Some(x), Some(y)) => Some(if x <= y { x } else { y }),
        (Some(x), None) => Some(x),
        (None, y) => y,
    }
}

/// The tightest result-count limit among the filters, if any has one.
pub open spec fn limit_of(filters: Seq<Filter>) -> Option<usize>
    decreases filters.len(),
{
    if filters.len() == 0 {
        None
    } else {
        tighter(limit_of(filters.drop_last()), filters.last().limit)
    }
}

/// The stored events that the filters match, newest first, at most `cap` of them.
pub open spec fn backlog(events: Seq<Event>, filters: Seq<Filter>, cap: nat) -> Seq<Event>
    decreases events.len(),
{
    if events.len() == 0 || cap == 0 {
        Seq::empty()
    } else if any_matches(filters, &events.last()) {
        seq![events.last()] + backlog(events.drop_last(), filters, (cap - 1) as nat)
    } else {
        backlog(events.drop_last(), filters, cap)
    }
}

/// How many stored events a subscription with these filters may receive.
pub open spec fn backlog_cap(events: Seq<Event>, filters: Seq<Filter>) -> nat {
    match limit_of(filters) {
        Some(n) => n as nat,
        None => events.len(),
    }
}

/// The tightest limit among the filters.
pub fn tightest_limit(filters: &Vec<Filter>) -> (r: Option<usize>)
    ensures
        r == limit_of(filters@),
{
    let mut r: Option<usize> = None;
    let mut i: usize = 0;
    while i < filters.len()
        invariant
            i <= filters@.len(),
            r == limit_of(filters@.subrange(0, i as int)),
        decreases filters@.len() - i,
    {
        assert(filters@.subrange(0, i + 1).drop_last() =~= filters@.subrange(0, i as int));
        r = match (r, filters[i].limit) {
            (Some(x), Some(y)) => Some(if x <= y { x } else { y }),
            (Some(x), None) => Some(x),
            (None, y) => y,
        };
        i = i + 1;
    }
    assert(filters@.subrange(0, filters@.len() as int) =~= filters@);
    r
}

/// Copies of the stored events that the filters match, newest first, at most `cap`.
pub fn collect_backlog(events: &Vec<Event>, filters: &Vec<Filter>, cap: usize) -> (r: Vec<Event>)
    ensures
        r@.len() == backlog(events@, filters@, cap as nat).len(),
        forall|k: int| 0 <= k < r@.len() ==> #[trigger] r@[k].same_as(&backlog(events@, filters@, cap as nat)[k]),
{
    let ghost full = backlog(events@, filters@, cap as nat);
    let ghost mut taken: Seq<Event> = Seq::empty();
    let mut out: Vec<Event> = Vec::new();
    let mut remaining: usize = cap;
    let mut i: usize = events.len();
    assert(events@.subrange(0, i as int) =~= events@);
    while i > 0 && remaining > 0
        invariant
            i <= events@.len(),
            remaining <= cap,
            taken + backlog(events@.subrange(0, i as int), filters@, remaining as nat) == full,
            out@.len() == taken.len(),
            forall|k: int| 0 <= k < out@.len() ==> #[trigger] out@[k].same_as(&taken[k]),
        decreases i,
    {
        let ghost pre = events@.subrange(0, i as int);
        assert(pre.drop_last() =~= events@.subrange(0, i - 1));
        assert(pre.last() == events@[i - 1]);
        let ev = &events[i - 1];
        if subscription_matches(filters, ev) {
            let ghost old_out = out@;
            out.push(ev.duplicate());
            proof {
                let rest = backlog(events@.subrange(0, i - 1), filters@, (remaining - 1) as nat);
                assert(taken + (seq![events@[i - 1]] + rest) =~= taken.push(events@[i - 1]) + rest);
                taken = taken.push(events@[i - 1]);
                assert forall|k: int| 0 <= k < out@.len() implies #[trigger] out@[k].same_as(&taken[k]) by {
                    if k < old_out.len() {
                        assert(out@[k] == old_out[k]);
                    }
                }
            }
            remaining = remaining - 1;
        }
        i = i - 1;
    }
    assert(taken =~= full);
    out
}

} // verus!

verus! {

/// Why a published event is refused, if it is.
pub open spec fn rejection(e: &Event) -> Option<Seq<char>> {
    if !e.well_formed() {
        Some("invalid: empty tag"@)
    } else {
        match verification(e) {
            Err(VerifyError::InvalidIdentifier) => Some("invalid: event id does not match"@),
            Err(VerifyError::InvalidSignature) => Some("invalid: signature does not verify"@),
            Ok(()) => None,
        }
    }
}

/// The reason given with the answer to a published event: empty when it is accepted.
pub open spec fn answer_text(e: &Event) -> Seq<char> {
    match rejection(e) {
        Some(why) => why,
        None => Seq::empty(),
    }
}

/// The message delivers event `e` to subscription `sid`.
pub open spec fn is_delivery(m: RelayMessage, sid: Seq<char>, e: &Event) -> bool {
    m matches RelayMessage::Event { sub_id, event } && sub_id@ == sid && event.same_as(e)
}

/// The subscription that a delivery goes to.
pub open spec fn delivery_sub(m: RelayMessage) -> Seq<char> {
    match m {
        RelayMessage::Event { sub_id, .. } => sub_id@,
        _ => Seq::empty(),
    }
}

/// The relay's shared state: live subscriptions, stored events, and the
/// connections that are open.
#[derive(Debug)]
pub struct Relay {
    registry: Registry,
    store: Vec<Event>,
    open: Vec<u64>,
}

/// What publishing `e` on `conn` does: a refused event changes nothing and is
/// answered alone; an accepted one is stored, delivered once to every live
/// subscription that matches it, and then acknowledged.
pub open spec fn publish_post(pre: Relay, post: Relay, conn: u64, e: Event, r: Seq<Outbound>) -> bool {
    &&& r.len() >= 1
    &&& r.last().conn == conn
    &&& r.last().msg matches RelayMessage::Accepted { id, ok, reason } && id@ == e.id@ && ok
        == (rejection(&e) is None) && reason@ == answer_text(&e)
    &&& post.subs() == pre.subs()
    &&& forall|c: u64| post.is_open(c) == pre.is_open(c)
    &&& rejection(&e) is Some ==> r.len() == 1 && post.stored() == pre.stored()
    &&& rejection(&e) is None ==> {
        &&& post.stored() == pre.stored().push(e)
        &&& forall|k: int|
            0 <= k < r.len() - 1 ==> is_delivery((#[trigger] r[k]).msg, delivery_sub(r[k].msg), &e)
        &&& forall|c: u64, s: Seq<char>|
            #[trigger] pre.subs().delivers(c, s, &e) <==> exists|k: int|
                0 <= k < r.len() - 1 && (#[trigger] r[k]).conn == c && delivery_sub(r[k].msg) == s
    }
}

/// What subscribing `sid` with `filters` on `conn` does: the subscription
/// replaces any of the same identifier on that connection, the stored events
/// it matches are sent newest first up to its limit, and then the end marker.
pub open spec fn subscribe_post(
    pre: Relay,
    post: Relay,
    conn: u64,
    sid: Seq<char>,
    filters: Seq<Filter>,
    r: Seq<Outbound>,
) -> bool {
    let b = backlog(pre.stored(), filters, backlog_cap(pre.stored(), filters));
    &&& r.len() == b.len() + 1
    &&& forall|k: int|
        0 <= k < b.len() ==> (#[trigger] r[k]).conn == conn && is_delivery(r[k].msg, sid, &b[k])
    &&& r.last().conn == conn
    &&& r.last().msg matches RelayMessage::EndOfStoredEvents(s) && s@ == sid
    &&& post.stored() == pre.stored()
    &&& forall|c: u64| post.is_open(c) == pre.is_open(c)
    &&& forall|c: u64, s: Seq<char>, fs: Seq<Filter>|
        #[trigger] post.subs().holds(c, s, fs) <==> if c == conn && s == sid {
            fs == filters
        } else {
            pre.subs().holds(c, s, fs)
        }
    &&& forall|e: &Event| #[trigger] post.subs().delivers(conn, sid, e) == any_matches(filters, e)
}

/// What closing `sid` on `conn` does: the subscription ends and the client is told.
pub open spec fn close_post(pre: Relay, post: Relay, conn: u64, sid: Seq<char>, r: Seq<Outbound>) -> bool {
    &&& r.len() == 1
    &&& r[0].conn == conn
    &&& r[0].msg matches RelayMessage::Closed { sub_id, reason } && sub_id@ == sid && reason@ == Seq::<char>::empty()
    &&& post.stored() == pre.stored()
    &&& forall|c: u64| post.is_open(c) == pre.is_open(c)
    &&& forall|c: u64, s: Seq<char>, fs: Seq<Filter>|
        #[trigger] post.subs().holds(c, s, fs) <==> (pre.subs().holds(c, s, fs) && !(c == conn && s == sid))
}

/// A lone notice to `conn`, with the state left as it was.
pub open spec fn notice_post(pre: Relay, post: Relay, conn: u64, text: Seq<char>, r: Seq<Outbound>) -> bool {
    &&& r.len() == 1
    &&& r[0].conn == conn
    &&& r[0].msg matches RelayMessage::Notice(t) && t@ == text
    &&& post == pre
}

impl Relay {
    /// Every live subscription belongs to an open connection.
    pub closed spec fn well_formed(&self) -> bool {
        &&& self.registry.well_formed()
        &&& forall|c: u64, s: Seq<char>, fs: Seq<Filter>|
            #[trigger] self.registry.holds(c, s, fs) ==> self.open@.contains(c)
    }

    pub closed spec fn subs(&self) -> Registry {
        self.registry
    }

    pub closed spec fn stored(&self) -> Seq<Event> {
        self.store@
    }

    pub closed spec fn is_open(&self, conn: u64) -> bool {
        self.open@.contains(conn)
    }

    /// A relay with no connections, subscriptions or events.
    pub fn new() -> (r: Relay)
        ensures
            r.well_formed(),
            r.stored().len() == 0,
            forall|c: u64| !r.is_open(c),
            forall|c: u64, s: Seq<char>, fs: Seq<Filter>| !r.subs().holds(c, s, fs),
    {
        let r = Relay { registry: Registry::new(), store: Vec::new(), open: Vec::new() };
        assert forall|c: u64| !r.is_open(c) by {
            assert(!r.open@.contains(c));
        }
        r
    }

    /// Whether `conn` is open.
    pub fn connection_open(&self, conn: u64) -> (r: bool)
        ensures
            r == self.is_open(conn),
    {
        let mut i: usize = 0;
        while i < self.open.len()
            invariant
                i <= self.open@.len(),
                forall|k: int| 0 <= k < i ==> self.open@[k] != conn,
            decreases self.open@.len() - i,
        {
            if self.open[i] == conn {
                assert(self.open@[i as int] == conn);
                return true;
            }
            i = i + 1;
        }
        false
    }

    /// Marks `conn` open, once its transport is established.
    pub fn connect(&mut self, conn: u64)
        requires
            old(self).well_formed(),
        ensures
            final(self).well_formed(),
            final(self).is_open(conn),
            forall|c: u64| c != conn ==> final(self).is_open(c) == old(self).is_open(c),
            final(self).subs() == old(self).subs(),
            final(self).stored() == old(self).stored(),
    {
        if !self.connection_open(conn) {
            let ghost before = self.open@;
            self.open.push(conn);
            assert(self.open@[self.open@.len() - 1] == conn);
            assert forall|c: u64| before.contains(c) implies self.open@.contains(c) by {
                let k = choose|k: int| 0 <= k < before.len() && before[k] == c;
                assert(self.open@[k] == c);
            }
            assert forall|c: u64| c != conn && self.open@.contains(c) implies before.contains(c) by {
                let k = choose|k: int| 0 <= k < self.open@.len() && self.open@[k] == c;
                assert(before[k] == c);
            }
        }
    }

    /// Closes `conn`: it is no longer open and all its subscriptions end.
    pub fn disconnect(&mut self, conn: u64)
        requires
            old(self).well_formed(),
        ensures
            final(self).well_formed(),
            !final(self).is_open(conn),
            forall|c: u64| c != conn ==> final(self).is_open(c) == old(self).is_open(c),
            final(self).stored() == old(self).stored(),
            forall|c: u64, s: Seq<char>, fs: Seq<Filter>|
                #[trigger] final(self).subs().holds(c, s, fs) <==> (old(self).subs().holds(c, s, fs) && c
                    != conn),
            forall|s: Seq<char>, e: &Event| !#[trigger] final(self).subs().delivers(conn, s, e),
    {
        self.registry.unregister_all(conn);
        let mut kept: Vec<u64> = Vec::new();
        let mut i: usize = 0;
        while i < self.open.len()
            invariant
                i <= self.open@.len(),
                forall|c: u64| #[trigger] kept@.contains(c) <==> (c != conn && self.open@.subrange(0, i as int).contains(c)),
            decreases self.open@.len() - i,
        {
            let ghost before = kept@;
            assert(forall|c: u64| #[trigger] before.contains(c) <==> (c != conn && self.open@.subrange(0, i as int).contains(c)));
            let ghost pre = self.open@.subrange(0, i as int);
            let ghost next = self.open@.subrange(0, i + 1);
            assert(next =~= pre.push(self.open@[i as int]));
            let c0 = self.open[i];
            if c0 != conn {
                kept.push(c0);
            }
            assert forall|c: u64| #[trigger] kept@.contains(c) <==> (c != conn && next.contains(c)) by {
                assert(next[next.len() - 1] == c0);
                if kept@.contains(c) {
                    let k = choose|k: int| 0 <= k < kept@.len() && kept@[k] == c;
                    if k < before.len() {
                        assert(before[k] == c);
                        assert(before.contains(c));
                        assert(pre.contains(c));
                        let j = choose|j: int| 0 <= j < pre.len() && pre[j] == c;
                        assert(next[j] == c);
                    }
                }
                if c != conn && next.contains(c) {
                    let j = choose|j: int| 0 <= j < next.len() && next[j] == c;
                    if j < pre.len() {
                        assert(pre[j] == c);
                        assert(pre.contains(c));
                        assert(before.contains(c));
                        let k = choose|k: int| 0 <= k < before.len() && before[k] == c;
                        assert(kept@[k] == c);
                    } else {
                        assert(kept@[kept@.len() - 1] == c);
                    }
                }
            }
            i = i + 1;
        }
        assert(self.open@.subrange(0, self.open@.len() as int) =~= self.open@);
        self.open = kept;
    }
}


impl Relay {
    /// The answer to a published event, and the copies of it that go to each
    /// matching live subscription.
    pub fn publish(&mut self, conn: u64, e: Event) -> (r: Vec<Outbound>)
        requires
            old(self).well_formed(),
        ensures
            final(self).well_formed(),
            publish_post(*old(self), *final(self), conn, e, r@),
    {
        let id = e.id;
        let reason: Option<String> = if !e.is_well_formed() {
            Some("invalid: empty tag".to_owned())
        } else {
            match verify_event(&e) {
                Err(VerifyError::InvalidIdentifier) => Some("invalid: event id does not match".to_owned()),
                Err(VerifyError::InvalidSignature) => Some("invalid: signature does not verify".to_owned()),
                Ok(()) => None,
            }
        };
        match reason {
            Some(why) => {
                assert(answer_text(&e) == why@);
                let mut r: Vec<Outbound> = Vec::new();
                r.push(Outbound { conn, msg: RelayMessage::Accepted { id, ok: false, reason: why } });
                r
            },
            None => {
                let targets = self.registry.find_matching(&e);
                let mut r: Vec<Outbound> = Vec::new();
                let mut k: usize = 0;
                while k < targets.len()
                    invariant
                        k <= targets@.len(),
                        r@.len() == k,
                        forall|j: int|
                            0 <= j < k ==> (#[trigger] r@[j]).conn == targets@[j].0 && delivery_sub(r@[j].msg)
                                == targets@[j].1@ && is_delivery(r@[j].msg, targets@[j].1@, &e),
                    decreases targets@.len() - k,
                {
                    let (c, sub) = (targets[k].0, targets[k].1.clone());
                    r.push(Outbound { conn: c, msg: RelayMessage::Event { sub_id: sub, event: e.duplicate() } });
                    k = k + 1;
                }
                let ghost pre = *self;
                let ghost ev = e;
                let ghost deliveries = r@;
                self.store.push(e);
                r.push(Outbound { conn, msg: RelayMessage::Accepted { id, ok: true, reason: String::new() } });
                assert(answer_text(&ev) == Seq::<char>::empty());
                assert forall|j: int| 0 <= j < r@.len() - 1 implies #[trigger] r@[j] == deliveries[j] by {}
                assert forall|c: u64, s: Seq<char>|
                    #[trigger] pre.subs().delivers(c, s, &ev) <==> exists|j: int|
                        0 <= j < r@.len() - 1 && (#[trigger] r@[j]).conn == c && delivery_sub(r@[j].msg) == s by {
                    if pre.subs().delivers(c, s, &ev) {
                        let j = choose|j: int|
                            0 <= j < targets@.len() && (#[trigger] targets@[j]).0 == c && targets@[j].1@ == s;
                        assert(r@[j] == deliveries[j]);
                    }
                    if exists|j: int| 0 <= j < r@.len() - 1 && (#[trigger] r@[j]).conn == c && delivery_sub(r@[j].msg) == s {
                        let j = choose|j: int| 0 <= j < r@.len() - 1 && (#[trigger] r@[j]).conn == c && delivery_sub(r@[j].msg) == s;
                        assert(r@[j] == deliveries[j]);
                        assert(targets@[j].0 == c);
                    }
                }
                r
            },
        }
    }
}

impl Relay {
    /// Opens (or replaces) subscription `sid` on `conn`, answering with the
    /// stored events it matches and then the end marker.
    pub fn subscribe(&mut self, conn: u64, sid: String, filters: Vec<Filter>) -> (r: Vec<Outbound>)
        requires
            old(self).well_formed(),
            old(self).is_open(conn),
        ensures
            final(self).well_formed(),
            subscribe_post(*old(self), *final(self), conn, sid@, filters@, r@),
    {
        let cap: usize = match tightest_limit(&filters) {
            Some(n) => n,
            None => self.store.len(),
        };
        let stored = collect_backlog(&self.store, &filters, cap);
        let ghost b = backlog(self.store@, filters@, cap as nat);
        let mut r: Vec<Outbound> = Vec::new();
        let mut k: usize = 0;
        while k < stored.len()
            invariant
                k <= stored@.len(),
                stored@.len() == b.len(),
                forall|j: int| 0 <= j < stored@.len() ==> #[trigger] stored@[j].same_as(&b[j]),
                r@.len() == k,
                forall|j: int| 0 <= j < k ==> (#[trigger] r@[j]).conn == conn && is_delivery(r@[j].msg, sid@, &b[j]),
            decreases stored@.len() - k,
        {
            let ev = stored[k].duplicate();
            assert(stored@[k as int].same_as(&b[k as int]));
            r.push(Outbound { conn, msg: RelayMessage::Event { sub_id: sid.clone(), event: ev } });
            k = k + 1;
        }
        r.push(Outbound { conn, msg: RelayMessage::EndOfStoredEvents(sid.clone()) });
        let ghost pre = *self;
        self.registry.register(conn, sid, filters);
        assert forall|c: u64, s: Seq<char>, fs: Seq<Filter>|
            #[trigger] self.registry.holds(c, s, fs) implies self.open@.contains(c) by {
            if !(c == conn && s == sid@) {
                assert(pre.registry.holds(c, s, fs));
            }
        }
        r
    }

    /// Ends subscription `sid` on `conn` and says so.
    pub fn close(&mut self, conn: u64, sid: String) -> (r: Vec<Outbound>)
        requires
            old(self).well_formed(),
        ensures
            final(self).well_formed(),
            close_post(*old(self), *final(self), conn, sid@, r@),
    {
        self.registry.unregister(conn, &sid);
        let mut r: Vec<Outbound> = Vec::new();
        r.push(Outbound { conn, msg: RelayMessage::Closed { sub_id: sid, reason: String::new() } });
        r
    }

    /// Interprets one message from `conn`. A connection that is not open gets
    /// nothing and changes nothing; otherwise each kind of message has the
    /// effect that its own operation states, and a request for a capability the
    /// relay does not offer, or a frame that did not decode, is answered with a
    /// notice alone.
    pub fn handle(&mut self, conn: u64, msg: ClientMessage) -> (r: Vec<Outbound>)
        requires
            old(self).well_formed(),
        ensures
            final(self).well_formed(),
            !old(self).is_open(conn) ==> r@.len() == 0 && *final(self) == *old(self),
            old(self).is_open(conn) ==> match msg {
                ClientMessage::Publish(e) => publish_post(*old(self), *final(self), conn, e, r@),
                ClientMessage::Subscribe { sub_id, filters } => subscribe_post(
                    *old(self),
                    *final(self),
                    conn,
                    sub_id@,
                    filters@,
                    r@,
                ),
                ClientMessage::Close(sub_id) => close_post(*old(self), *final(self), conn, sub_id@, r@),
                ClientMessage::Unsupported(cap) => notice_post(
                    *old(self),
                    *final(self),
                    conn,
                    cap.spec_notice(),
                    r@,
                ),
                ClientMessage::Malformed(why) => notice_post(*old(self), *final(self), conn, why@, r@),
            },
    {
        if !self.connection_open(conn) {
            return Vec::new();
        }
        match msg {
            ClientMessage::Publish(e) => self.publish(conn, e),
            ClientMessage::Subscribe { sub_id, filters } => self.subscribe(conn, sub_id, filters),
            ClientMessage::Close(sub_id) => self.close(conn, sub_id),
            ClientMessage::Unsupported(cap) => {
                let mut r: Vec<Outbound> = Vec::new();
                r.push(Outbound { conn, msg: RelayMessage::Notice(cap.notice()) });
                r
            },
            ClientMessage::Malformed(why) => {
                let mut r: Vec<Outbound> = Vec::new();
                r.push(Outbound { conn, msg: RelayMessage::Notice(why) });
                r
            },
        }
    }
}

/// A connection that is not open has no live subscription, so no published
/// event is delivered to it: in particular none after it was closed.
pub proof fn lemma_closed_connection_receives_nothing(relay: Relay, conn: u64, sid: Seq<char>, e: &Event)
    requires
        relay.well_formed(),
        !relay.is_open(conn),
    ensures
        !relay.subs().delivers(conn, sid, e),
{
    if relay.subs().delivers(conn, sid, e) {
        let fs = choose|fs: Seq<Filter>| #[trigger] relay.subs().holds(conn, sid, fs) && any_matches(fs, e);
        assert(relay.registry.holds(conn, sid, fs));
    }
}

/// Once a connection is closed, publishing any event delivers nothing to it.
pub proof fn lemma_publish_skips_closed_connection(
    pre: Relay,
    post: Relay,
    publisher: u64,
    closed: u64,
    e: Event,
    r: Seq<Outbound>,
)
    requires
        pre.well_formed(),
        !pre.is_open(closed),
        publish_post(pre, post, publisher, e, r),
    ensures
        forall|k: int| 0 <= k < r.len() - 1 ==> (#[trigger] r[k]).conn != closed,
{
    assert forall|k: int| 0 <= k < r.len() - 1 implies (#[trigger] r[k]).conn != closed by {
        if r[k].conn == closed {
            let s = delivery_sub(r[k].msg);
            assert(pre.subs().delivers(closed, s, &e));
            lemma_closed_connection_receives_nothing(pre, closed, s, &e);
        }
    }
}

/// Subscribing again under the same identifier replaces the earlier filters:
/// an event that the new filters do not match (even one that the old filters
/// matched) is not delivered to that subscription afterwards.
pub proof fn lemma_resubscribe_replaces(
    pre: Relay,
    mid: Relay,
    post: Relay,
    conn: u64,
    sid: Seq<char>,
    filters: Seq<Filter>,
    r1: Seq<Outbound>,
    publisher: u64,
    e: Event,
    r2: Seq<Outbound>,
)
    requires
        subscribe_post(pre, mid, conn, sid, filters, r1),
        publish_post(mid, post, publisher, e, r2),
        !any_matches(filters, &e),
    ensures
        forall|k: int|
            0 <= k < r2.len() - 1 ==> !((#[trigger] r2[k]).conn == conn && delivery_sub(r2[k].msg) == sid),
{
    assert(!mid.subs().delivers(conn, sid, &e));
}
} // verus!
