use vstd::prelude::*;

use crate::bytemap::ByteMap;

verus! {

/// Copies a byte string.
pub fn clone_bytes(a: &Vec<u8>) -> (r: Vec<u8>)
    ensures
        r@ == a@,
{
    let n: usize = a.len();
    let mut r: Vec<u8> = Vec::new();
    let mut i: usize = 0;
    while i < n
        invariant
            n == a@.len(),
            i <= n,
            r@ =~= a@.take(i as int),
        decreases n - i,
    {
        r.push(a[i]);
        i = i + 1;
    }
    proof {
        assert(r@ =~= a@);
    }
    r
}

/// A topic/payload pair as it travels over the outbound endpoint.
pub struct Frame {
    pub topic: Vec<u8>,
    pub payload: Vec<u8>,
}

/// A subscription-state change reported by the outbound endpoint.
pub enum SubscriptionEvent {
    Subscribed(Vec<u8>),
    Unsubscribed(Vec<u8>),
}

impl View for SubscriptionEvent {
    type V = (bool, Seq<u8>);

    closed spec fn view(&self) -> (bool, Seq<u8>) {
        match self {
            SubscriptionEvent::Subscribed(t) => (true, t@),
            SubscriptionEvent::Unsubscribed(t) => (false, t@),
        }
    }
}

/// What a raw event frame means: a one-byte prefix (1 for newly subscribed,
/// 0 for unsubscribed) followed by the topic bytes; anything else is not a
/// subscription-state change.
pub open spec fn spec_decode_event(f: Seq<u8>) -> Option<(bool, Seq<u8>)> {
    if f.len() >= 1 && (f[0] == 0 || f[0] == 1) {
        Some((f[0] == 1, f.skip(1)))
    } else {
        None
    }
}

/// The event frame that announces a new subscription to topic `t`.
pub open spec fn subscribe_frame(t: Seq<u8>) -> Seq<u8> {
    seq![1u8] + t
}

/// Decodes a subscription-state-change frame from the outbound endpoint.
pub fn decode_subscription_event(frame: &Vec<u8>) -> (r: Option<SubscriptionEvent>)
    ensures
        match r {
            Some(ev) => spec_decode_event(frame@) == Some(ev@),
            None => spec_decode_event(frame@) is None,
        },
{
    if frame.len() == 0 {
        return None;
    }
    let flag: u8 = frame[0];
    if flag > 1 {
        return None;
    }
    let n: usize = frame.len();
    let mut topic: Vec<u8> = Vec::new();
    let mut i: usize = 1;
    while i < n
        invariant
            n == frame@.len(),
            1 <= i <= n,
            topic@ =~= frame@.subrange(1, i as int),
        decreases n - i,
    {
        topic.push(frame[i]);
        i = i + 1;
    }
    proof {
        assert(topic@ =~= frame@.skip(1));
    }
    if flag == 1 {
        Some(SubscriptionEvent::Subscribed(topic))
    } else {
        Some(SubscriptionEvent::Unsubscribed(topic))
    }
}

/// The replay owed for an event frame: when the frame announces a new
/// subscription to a topic with a cached payload, that topic's latest payload
/// is sent immediately; in every other case nothing is.
pub open spec fn spec_replay(cache: Map<Seq<u8>, Seq<u8>>, f: Seq<u8>) -> Option<
    (Seq<u8>, Seq<u8>),
> {
    match spec_decode_event(f) {
        Some((went_subscribed, t)) => if went_subscribed && cache.contains_key(t) {
            Some((t, cache[t]))
        } else {
            None
        },
        None => None,
    }
}

/// What the relay's poll loop has observed to be ready.
pub enum RelayEvent {
    /// A topic/payload frame pair read from the inbound endpoint.
    Inbound(Vec<u8>, Vec<u8>),
    /// A raw event frame read from the outbound endpoint.
    OutboundActivity(Vec<u8>),
    /// Neither endpoint became ready within the poll timeout.
    TimedOut,
}

/// What the poll loop must do next.
pub enum RelayAction {
    /// Send the frame pair on the outbound endpoint, unchanged.
    Forward(Frame),
    /// Send the cached pair on the outbound endpoint for a late joiner.
    Replay(Frame),
    /// Nothing to send.
    Idle,
    /// Leave the poll loop.
    Shutdown,
}

/// Relays live messages from one inbound feed to any number of downstream
/// consumers while keeping the most recent payload per topic, so that a
/// consumer subscribing after a publication still receives the topic's latest
/// value. The model is the topic-to-payload cache: a map holding, for each
/// topic, the payload of the most recent message observed on it.
pub struct LastValueRelay {
    cache: ByteMap,
}

impl View for LastValueRelay {
    type V = Map<Seq<u8>, Seq<u8>>;

    closed spec fn view(&self) -> Map<Seq<u8>, Seq<u8>> {
        self.cache@
    }
}

impl LastValueRelay {
    /// Creates a relay that has observed no message yet.
    pub fn new() -> (r: LastValueRelay)
        ensures
            r@ == Map::<Seq<u8>, Seq<u8>>::empty(),
    {
        LastValueRelay { cache: ByteMap::new() }
    }

    /// Records a frame pair read from the inbound endpoint, overwriting any
    /// prior payload cached for its topic, and returns the same pair to be
    /// forwarded unchanged on the outbound endpoint.
    pub fn on_inbound(&mut self, topic: Vec<u8>, payload: Vec<u8>) -> (forward: Frame)
        ensures
            final(self)@ == old(self)@.insert(topic@, payload@),
            forward.topic@ == topic@,
            forward.payload@ == payload@,
    {
        let topic_out = clone_bytes(&topic);
        let payload_out = clone_bytes(&payload);
        self.cache.insert(topic, payload);
        Frame { topic: topic_out, payload: payload_out }
    }

    /// Decides the late-joiner replay for a raw event frame from the outbound
    /// endpoint; the cache is left untouched.
    pub fn on_subscription(&self, event_frame: &Vec<u8>) -> (r: Option<Frame>)
        ensures
            match r {
                Some(fr) => spec_replay(self@, event_frame@) == Some((fr.topic@, fr.payload@)),
                None => spec_replay(self@, event_frame@) is None,
            },
    {
        match decode_subscription_event(event_frame) {
            Some(SubscriptionEvent::Subscribed(topic)) => {
                match self.cache.get(&topic) {
                    Some(payload) => {
                        let payload_out = clone_bytes(payload);
                        Some(Frame { topic, payload: payload_out })
                    }
                    None => None,
                }
            }
            _ => None,
        }
    }

    /// One iteration of the poll loop: caches and forwards an inbound frame
    /// pair, answers a new subscription with the cached payload, and shuts
    /// down once the poll timeout elapses with neither endpoint ready.
    pub fn poll_step(&mut self, event: RelayEvent) -> (act: RelayAction)
        ensures
            match event {
                RelayEvent::Inbound(t, p) => final(self)@ == old(self)@.insert(t@, p@) && (act
                    matches RelayAction::Forward(f) && f.topic@ == t@ && f.payload@ == p@),
                RelayEvent::OutboundActivity(ev) => final(self)@ == old(self)@ && match spec_replay(
                    old(self)@,
                    ev@,
                ) {
                    Some(tp) => (act matches RelayAction::Replay(f) && f.topic@ == tp.0
                        && f.payload@ == tp.1),
                    None => act == RelayAction::Idle,
                },
                RelayEvent::TimedOut => final(self)@ == old(self)@ && act
                    == RelayAction::Shutdown,
            },
    {
        match event {
            RelayEvent::Inbound(topic, payload) => {
                let forward = self.on_inbound(topic, payload);
                RelayAction::Forward(forward)
            }
            RelayEvent::OutboundActivity(event_frame) => {
                match self.on_subscription(&event_frame) {
                    Some(fr) => RelayAction::Replay(fr),
                    None => RelayAction::Idle,
                }
            }
            RelayEvent::TimedOut => RelayAction::Shutdown,
        }
    }
}

/// The payload of the most recent observation on topic `t` among the inbound
/// frames `obs`, oldest first, if the topic was observed at all.
pub open spec fn spec_last_payload(obs: Seq<(Seq<u8>, Seq<u8>)>, t: Seq<u8>) -> Option<Seq<u8>>
    decreases obs.len(),
{
    if obs.len() == 0 {
        None
    } else if obs.last().0 == t {
        Some(obs.last().1)
    } else {
        spec_last_payload(obs.drop_last(), t)
    }
}

/// The cache contents owed once the relay has observed the inbound frames
/// `obs`, in order.
pub open spec fn spec_cache_of(obs: Seq<(Seq<u8>, Seq<u8>)>) -> Map<Seq<u8>, Seq<u8>>
    decreases obs.len(),
{
    if obs.len() == 0 {
        Map::empty()
    } else {
        spec_cache_of(obs.drop_last()).insert(obs.last().0, obs.last().1)
    }
}

/// One more inbound observation extends the owed cache exactly as
/// `on_inbound` extends the relay's: by overwriting the topic's entry. So a
/// relay that starts empty and records each observation holds
/// `spec_cache_of` of all of them.
pub proof fn lemma_cache_step(obs: Seq<(Seq<u8>, Seq<u8>)>, t: Seq<u8>, p: Seq<u8>)
    ensures
        spec_cache_of(obs.push((t, p))) == spec_cache_of(obs).insert(t, p),
{
    assert(obs.push((t, p)).drop_last() =~= obs);
}

/// The relay-cache invariant: after any sequence of inbound observations the
/// cache holds entries for exactly the topics observed, and for each of them
/// the payload of the most recent observation; entries are never evicted.
pub proof fn lemma_cache_holds_last_value(obs: Seq<(Seq<u8>, Seq<u8>)>, t: Seq<u8>)
    ensures
        spec_cache_of(obs).contains_key(t) <==> spec_last_payload(obs, t) is Some,
        spec_cache_of(obs).contains_key(t) ==> Some(spec_cache_of(obs)[t]) == spec_last_payload(
            obs,
            t,
        ),
    decreases obs.len(),
{
    if obs.len() > 0 {
        lemma_cache_holds_last_value(obs.drop_last(), t);
    }
}

/// Late-join replay: once a payload `p` has been published on topic `t`, a
/// subscription to `t` that happens after the publication is answered with
/// `p` immediately, even if nothing further is ever published on `t`.
pub proof fn lemma_late_join_replay(cache: Map<Seq<u8>, Seq<u8>>, t: Seq<u8>, p: Seq<u8>)
    ensures
        spec_replay(cache.insert(t, p), subscribe_frame(t)) == Some((t, p)),
{
    let f = subscribe_frame(t);
    assert(f[0] == 1);
    assert(f.skip(1) =~= t);
}

/// Cache monotonic overwrite: publishing `p1` then `p2` on the same topic
/// leaves the cache holding exactly `p2`, so a late subscriber is answered
/// with `p2` and never observes `p1`.
pub proof fn lemma_cache_overwrite(
    cache: Map<Seq<u8>, Seq<u8>>,
    t: Seq<u8>,
    p1: Seq<u8>,
    p2: Seq<u8>,
)
    ensures
        cache.insert(t, p1).insert(t, p2)[t] == p2,
        spec_replay(cache.insert(t, p1).insert(t, p2), subscribe_frame(t)) == Some((t, p2)),
        p1 != p2 ==> spec_replay(cache.insert(t, p1).insert(t, p2), subscribe_frame(t)) != Some(
            (t, p1),
        ),
{
    lemma_late_join_replay(cache.insert(t, p1), t, p2);
}

/// No replay for never-published topics: a subscription to a topic with no
/// cached payload produces no immediate message.
pub proof fn lemma_no_replay_unpublished(cache: Map<Seq<u8>, Seq<u8>>, t: Seq<u8>)
    requires
        !cache.contains_key(t),
    ensures
        spec_replay(cache, subscribe_frame(t)) is None,
{
    let f = subscribe_frame(t);
    assert(f[0] == 1);
    assert(f.skip(1) =~= t);
}

} // verus!
