//! The synchronization agent: subscriptions, key changes and feed fetches,
//! as a state machine that returns the effects for its runtime to carry out.
use crate::auth_key::{base64_standard, encode_key, AuthKey};
use crate::registry::{handles_for, subscribed, without_handle, HandlerId, Registry, Subscription};
use crate::store::{Post, State, Thread};
use vstd::prelude::*;

verus! {

/// Thread data as received from the server, with the thread's posts.
pub struct ThreadDecoder {
    pub thread_data: Thread,
    pub posts: Vec<Post>,
}

/// Requests that subscribers send to the agent.
pub enum Request {
    /// Subscribe to updates of a value type.
    Subscribe(Subscription),
    /// Set the client authorization key.
    SetAuthKey(AuthKey),
    /// Fetch feed data and optionally synchronize to it after a successful
    /// fetch.
    FetchFeed { id: u64, sync: bool },
}

/// Completions of the fetches that the agent started.
pub enum Message {
    FetchedThreadIndex { fetch: u64, data: Vec<ThreadDecoder>, sync: bool },
    FetchFailed { fetch: u64, reason: String },
}

/// Paths that are recognised but not supported yet.
#[derive(PartialEq, Eq, Structural, Clone, Copy, Debug)]
pub enum Unsupported {
    /// Fetching the feed of a single thread.
    FetchThread,
    /// Synchronizing to a feed after it was fetched.
    SyncToFeed,
}

/// What the runtime is asked to do, in order.
#[derive(PartialEq, Eq, Debug)]
pub enum Effect {
    /// Deliver a change notification to a subscriber.
    Respond(HandlerId, Subscription),
    /// Fetch the global thread index and report the outcome under `fetch`.
    StartFetch { fetch: u64, sync: bool },
    /// Write the encoded authentication key to durable storage.
    PersistKey(String),
    /// Log the message and show it to the user.
    ReportError(String),
    /// A request took a path that is not supported yet.
    Unsupported(Unsupported),
}

/// Notifications of `t` for every subscriber of it in `s`.
pub open spec fn deliveries(s: Seq<(Subscription, HandlerId)>, t: Subscription) -> Seq<Effect> {
    handles_for(s, t).map_values(|h: HandlerId| Effect::Respond(h, t))
}

/// Notifications of each topic of `topics` in turn.
pub open spec fn fan_out(s: Seq<(Subscription, HandlerId)>, topics: Seq<Subscription>) -> Seq<
    Effect,
>
    decreases topics.len(),
{
    if topics.len() == 0 {
        Seq::empty()
    } else {
        fan_out(s, topics.drop_last()) + deliveries(s, topics.last())
    }
}

/// A change notice for each post, in order.
pub open spec fn post_topics(posts: Seq<Post>) -> Seq<Subscription>
    decreases posts.len(),
{
    if posts.len() == 0 {
        Seq::empty()
    } else {
        post_topics(posts.drop_last()).push(Subscription::PostChange(posts.last().id))
    }
}

/// The topics that applying `data` changes, in order: each thread's posts,
/// then the thread.
pub open spec fn batch_topics(data: Seq<ThreadDecoder>) -> Seq<Subscription>
    decreases data.len(),
{
    if data.len() == 0 {
        Seq::empty()
    } else {
        (batch_topics(data.drop_last()) + post_topics(data.last().posts@)).push(
            Subscription::ThreadChange(data.last().thread_data.id),
        )
    }
}

/// `m` with the posts inserted in order, later ones replacing earlier ones.
pub open spec fn with_posts(m: Map<u64, Post>, posts: Seq<Post>) -> Map<u64, Post>
    decreases posts.len(),
{
    if posts.len() == 0 {
        m
    } else {
        with_posts(m, posts.drop_last()).insert(posts.last().id, posts.last())
    }
}

/// The posts after applying `data` to `m`.
pub open spec fn posts_after(m: Map<u64, Post>, data: Seq<ThreadDecoder>) -> Map<u64, Post>
    decreases data.len(),
{
    if data.len() == 0 {
        m
    } else {
        with_posts(posts_after(m, data.drop_last()), data.last().posts@)
    }
}

/// The threads after applying `data` to `m`.
pub open spec fn threads_after(m: Map<u64, Thread>, data: Seq<ThreadDecoder>) -> Map<u64, Thread>
    decreases data.len(),
{
    if data.len() == 0 {
        m
    } else {
        threads_after(m, data.drop_last()).insert(
            data.last().thread_data.id,
            data.last().thread_data,
        )
    }
}

/// The store's parts that a fetch never touches are those of `s0`.
pub open spec fn same_settings(s: State, s0: State) -> bool {
    &&& s.feed == s0.feed
    &&& s.auth_key == s0.auth_key
    &&& s.options == s0.options
    &&& s.mine@ == s0.mine@
}

proof fn lemma_fan_out_push(s: Seq<(Subscription, HandlerId)>, topics: Seq<Subscription>, t: Subscription)
    ensures
        fan_out(s, topics.push(t)) == fan_out(s, topics) + deliveries(s, t),
{
    assert(topics.push(t).drop_last() == topics);
}

/// Global state storage and propagation agent.
pub struct Agent {
    /// Subscriber registry.
    pub subscribers: Registry,
    /// The fetch whose completion will be applied, if one is in flight.
    pub pending: Option<u64>,
    /// The number that the next fetch gets.
    pub next_fetch: u64,
}

impl Agent {
    pub open spec fn wf(&self) -> bool {
        self.subscribers.wf()
    }

    /// An idle agent without subscribers.
    pub fn create() -> (r: Agent)
        ensures
            r.wf(),
            r.subscribers@ == Seq::<(Subscription, HandlerId)>::empty(),
            r.pending is None,
    {
        Agent { subscribers: Registry::new(), pending: None, next_fetch: 0 }
    }

    /// Appends a notification of `sub` for each of its subscribers.
    pub fn send_change(&self, sub: Subscription, out: &mut Vec<Effect>)
        ensures
            final(out)@ == old(out)@ + deliveries(self.subscribers@, sub),
    {
        let hs = self.subscribers.get_by_key(sub);
        let ghost start = out@;
        let mut i: usize = 0;
        while i < hs.len()
            invariant
                i <= hs@.len(),
                hs@ == handles_for(self.subscribers@, sub),
                out@ == start + hs@.take(i as int).map_values(|h: HandlerId| Effect::Respond(h, sub)),
            decreases hs@.len() - i,
        {
            out.push(Effect::Respond(hs[i], sub));
            assert(hs@.take(i + 1).map_values(|h: HandlerId| Effect::Respond(h, sub))
                =~= hs@.take(i as int).map_values(|h: HandlerId| Effect::Respond(h, sub)).push(
                Effect::Respond(hs@[i as int], sub),
            ));
            i += 1;
        }
        assert(hs@.take(i as int) == hs@);
    }

    /// Handles a request from subscriber `id`.
    pub fn handle_input(&mut self, state: &mut State, req: Request, id: HandlerId) -> (r: Vec<Effect>)
        requires
            old(self).wf(),
            old(state).wf(),
            req matches Request::SetAuthKey(k) ==> k.wf(),
        ensures
            final(self).wf(),
            final(state).wf(),
            match req {
                Request::Subscribe(t) => {
                    &&& final(self).subscribers@ == subscribed(old(self).subscribers@, t, id)
                    &&& final(self).pending == old(self).pending
                    &&& final(self).next_fetch == old(self).next_fetch
                    &&& *final(state) == *old(state)
                    &&& r@.len() == 0
                },
                Request::SetAuthKey(k) => {
                    &&& final(self).subscribers@ == old(self).subscribers@
                    &&& final(self).pending == old(self).pending
                    &&& final(self).next_fetch == old(self).next_fetch
                    &&& final(state).auth_key == k
                    &&& final(state).feed == old(state).feed
                    &&& final(state).threads@ == old(state).threads@
                    &&& final(state).posts@ == old(state).posts@
                    &&& final(state).options == old(state).options
                    &&& final(state).mine@ == old(state).mine@
                    &&& r@.len() == 1 + handles_for(old(self).subscribers@, Subscription::AuthKey).len()
                    &&& (r@[0] matches Effect::PersistKey(text) && text@ == base64_standard(k.bytes@))
                    &&& r@.skip(1) == deliveries(old(self).subscribers@, Subscription::AuthKey)
                },
                Request::FetchFeed { id: feed, sync } => {
                    &&& final(self).subscribers@ == old(self).subscribers@
                    &&& *final(state) == *old(state)
                    &&& if feed == 0 {
                        &&& final(self).pending == Some(old(self).next_fetch)
                        &&& final(self).next_fetch == (if old(self).next_fetch == u64::MAX {
                            0
                        } else {
                            (old(self).next_fetch + 1) as u64
                        })
                        &&& r@ == seq![Effect::StartFetch { fetch: old(self).next_fetch, sync }]
                    } else {
                        &&& final(self).pending == old(self).pending
                        &&& final(self).next_fetch == old(self).next_fetch
                        &&& r@ == seq![Effect::Unsupported(Unsupported::FetchThread)]
                    }
                },
            },
    {
        let mut out: Vec<Effect> = Vec::new();
        match req {
            Request::Subscribe(t) => {
                self.subscribers.insert(t, id);
            },
            Request::SetAuthKey(key) => {
                let text = encode_key(&key);
                state.auth_key = key;
                out.push(Effect::PersistKey(text));
                self.send_change(Subscription::AuthKey, &mut out);
                assert(out@.skip(1) =~= deliveries(old(self).subscribers@, Subscription::AuthKey));
            },
            Request::FetchFeed { id: feed, sync } => {
                if feed == 0 {
                    let fetch = self.next_fetch;
                    self.pending = Some(fetch);
                    self.next_fetch = if fetch == u64::MAX {
                        0
                    } else {
                        fetch + 1
                    };
                    out.push(Effect::StartFetch { fetch, sync });
                } else {
                    out.push(Effect::Unsupported(Unsupported::FetchThread));
                }
            },
        }
        out
    }

    /// Applies the completion of a fetch. Only the completion of the fetch in
    /// flight is applied; any other is dropped without effect.
    pub fn update(&mut self, state: &mut State, msg: Message) -> (r: Vec<Effect>)
        requires
            old(self).wf(),
            old(state).wf(),
        ensures
            final(self).wf(),
            final(state).wf(),
            final(self).subscribers@ == old(self).subscribers@,
            final(self).next_fetch == old(self).next_fetch,
            match msg {
                Message::FetchedThreadIndex { fetch, data, sync } => if old(self).pending == Some(
                    fetch,
                ) {
                    &&& final(self).pending is None
                    &&& final(state).posts@ == posts_after(old(state).posts@, data@)
                    &&& final(state).threads@ == threads_after(old(state).threads@, data@)
                    &&& same_settings(*final(state), *old(state))
                    &&& r@ == fan_out(
                        old(self).subscribers@,
                        batch_topics(data@).push(Subscription::ThreadListChange),
                    ) + if sync {
                        seq![Effect::Unsupported(Unsupported::SyncToFeed)]
                    } else {
                        Seq::empty()
                    }
                } else {
                    &&& final(self).pending == old(self).pending
                    &&& *final(state) == *old(state)
                    &&& r@.len() == 0
                },
                Message::FetchFailed { fetch, reason } => if old(self).pending == Some(fetch) {
                    &&& final(self).pending is None
                    &&& *final(state) == *old(state)
                    &&& r@ == seq![Effect::ReportError(reason)]
                } else {
                    &&& final(self).pending == old(self).pending
                    &&& *final(state) == *old(state)
                    &&& r@.len() == 0
                },
            },
    {
        let mut out: Vec<Effect> = Vec::new();
        match msg {
            Message::FetchedThreadIndex { fetch, data, sync } => {
                if self.pending != Some(fetch) {
                    return out;
                }
                self.apply_batch(state, data, &mut out);
                self.send_change(Subscription::ThreadListChange, &mut out);
                proof {
                    lemma_fan_out_push(
                        self.subscribers@,
                        batch_topics(data@),
                        Subscription::ThreadListChange,
                    );
                }
                self.pending = None;
                if sync {
                    out.push(Effect::Unsupported(Unsupported::SyncToFeed));
                }
                assert(out@ =~= fan_out(
                    old(self).subscribers@,
                    batch_topics(data@).push(Subscription::ThreadListChange),
                ) + if sync {
                    seq![Effect::Unsupported(Unsupported::SyncToFeed)]
                } else {
                    Seq::<Effect>::empty()
                });
            },
            Message::FetchFailed { fetch, reason } => {
                if self.pending != Some(fetch) {
                    return out;
                }
                self.pending = None;
                out.push(Effect::ReportError(reason));
            },
        }
        out
    }

    /// Stores each thread of `data` and its posts, notifying each post and
    /// then its thread before the store changes.
    fn apply_batch(&self, state: &mut State, data: Vec<ThreadDecoder>, out: &mut Vec<Effect>)
        requires
            self.wf(),
            old(state).wf(),
            old(out)@.len() == 0,
        ensures
            final(state).wf(),
            final(state).posts@ == posts_after(old(state).posts@, data@),
            final(state).threads@ == threads_after(old(state).threads@, data@),
            same_settings(*final(state), *old(state)),
            final(out)@ == fan_out(self.subscribers@, batch_topics(data@)),
    {
        let ghost d0 = data@;
        let ghost s0 = *state;
        let ghost subs = self.subscribers@;
        let ghost mut done: int = 0;
        let mut data = data;
        while data.len() > 0
            invariant
                self.wf(),
                subs == self.subscribers@,
                0 <= done <= d0.len(),
                data@ == d0.skip(done),
                state.wf(),
                state.posts@ == posts_after(s0.posts@, d0.take(done)),
                state.threads@ == threads_after(s0.threads@, d0.take(done)),
                same_settings(*state, s0),
                out@ == fan_out(subs, batch_topics(d0.take(done))),
            decreases data@.len(),
        {
            let t = data.remove(0);
            assert(t == d0[done]);
            let ThreadDecoder { thread_data, posts } = t;
            let ghost ps = posts@;
            let ghost topics0 = batch_topics(d0.take(done));
            let ghost posts0 = posts_after(s0.posts@, d0.take(done));
            let ghost mut j: int = 0;
            let mut posts = posts;
            while posts.len() > 0
                invariant
                    self.wf(),
                    subs == self.subscribers@,
                    0 <= j <= ps.len(),
                    posts@ == ps.skip(j),
                    state.wf(),
                    state.posts@ == with_posts(posts0, ps.take(j)),
                    state.threads@ == threads_after(s0.threads@, d0.take(done)),
                    same_settings(*state, s0),
                    out@ == fan_out(subs, topics0 + post_topics(ps.take(j))),
                decreases posts@.len(),
            {
                let p = posts.remove(0);
                assert(p == ps[j]);
                let ghost tp = topics0 + post_topics(ps.take(j));
                self.send_change(Subscription::PostChange(p.id), out);
                proof {
                    lemma_fan_out_push(subs, tp, Subscription::PostChange(p.id));
                    assert(ps.take(j + 1).drop_last() == ps.take(j));
                    assert(tp.push(Subscription::PostChange(p.id)) == topics0 + post_topics(
                        ps.take(j + 1),
                    ));
                }
                state.insert_post(p);
                proof {
                    j = j + 1;
                    assert(posts@ =~= ps.skip(j));
                }
            }
            assert(ps.take(j) == ps);
            let ghost tt = topics0 + post_topics(ps);
            self.send_change(Subscription::ThreadChange(thread_data.id), out);
            proof {
                lemma_fan_out_push(subs, tt, Subscription::ThreadChange(thread_data.id));
                assert(d0.take(done + 1).drop_last() == d0.take(done));
            }
            state.insert_thread(thread_data);
            proof {
                done = done + 1;
                assert(data@ =~= d0.skip(done));
            }
        }
        assert(d0.take(done) == d0);
    }

    /// Forgets every subscription of a subscriber that went away.
    pub fn disconnected(&mut self, id: HandlerId)
        requires
            old(self).wf(),
        ensures
            final(self).wf(),
            final(self).subscribers@ == without_handle(old(self).subscribers@, id),
            final(self).pending == old(self).pending,
            final(self).next_fetch == old(self).next_fetch,
    {
        self.subscribers.remove_by_value(id);
    }
}

} // verus!
