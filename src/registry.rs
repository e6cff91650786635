//! Subscription topics and the many-to-many registry of subscribers.
use vstd::prelude::*;

verus! {

/// Value changes to subscribe to.
#[derive(PartialEq, Eq, Structural, Clone, Copy, Debug, Hash)]
pub enum Subscription {
    FeedID,
    AuthKey,
    /// Any change to a post.
    PostChange(u64),
    /// Changes to a thread's data, excluding the post content level, but
    /// including changes to its set of posts.
    ThreadChange(u64),
    /// Changes to the list of threads.
    ThreadListChange,
    /// Change to any field of the options.
    OptionsChange,
}

/// Opaque identifier of a subscriber, supplied by the surrounding runtime.
pub type HandlerId = u64;

/// `s` with the pair `(t, h)` added, unless it is already there.
pub open spec fn subscribed(s: Seq<(Subscription, HandlerId)>, t: Subscription, h: HandlerId) -> Seq<
    (Subscription, HandlerId),
> {
    if s.contains((t, h)) {
        s
    } else {
        s.push((t, h))
    }
}

/// `s` without the pairs of handle `h`, the others kept in order.
pub open spec fn without_handle(s: Seq<(Subscription, HandlerId)>, h: HandlerId) -> Seq<
    (Subscription, HandlerId),
>
    decreases s.len(),
{
    if s.len() == 0 {
        Seq::empty()
    } else {
        let rest = without_handle(s.drop_last(), h);
        if s.last().1 == h {
            rest
        } else {
            rest.push(s.last())
        }
    }
}

/// The handles subscribed to `t` in `s`, in registration order.
pub open spec fn handles_for(s: Seq<(Subscription, HandlerId)>, t: Subscription) -> Seq<HandlerId>
    decreases s.len(),
{
    if s.len() == 0 {
        Seq::empty()
    } else {
        let rest = handles_for(s.drop_last(), t);
        if s.last().0 == t {
            rest.push(s.last().1)
        } else {
            rest
        }
    }
}

proof fn lemma_push_contains<A>(s: Seq<A>, y: A)
    ensures
        forall|x: A| #[trigger] s.push(y).contains(x) <==> (s.contains(x) || x == y),
{
    assert forall|x: A| #[trigger] s.push(y).contains(x) <==> (s.contains(x) || x == y) by {
        if s.contains(x) {
            let i = choose|i: int| 0 <= i < s.len() && s[i] == x;
            assert(s.push(y)[i] == x);
        }
        if x == y {
            assert(s.push(y)[s.len() as int] == x);
        }
        if s.push(y).contains(x) && x != y {
            let i = choose|i: int| 0 <= i < s.len() + 1 && s.push(y)[i] == x;
            assert(s[i] == x);
        }
    }
}

proof fn lemma_push_no_duplicates<A>(s: Seq<A>, y: A)
    requires
        s.no_duplicates(),
        !s.contains(y),
    ensures
        s.push(y).no_duplicates(),
{
    assert forall|i: int, j: int|
        0 <= i < s.len() + 1 && 0 <= j < s.len() + 1 && i != j implies s.push(y)[i] != s.push(
            y,
        )[j] by {
        if i == s.len() {
            assert(s[j] == s.push(y)[j]);
        } else if j == s.len() {
            assert(s[i] == s.push(y)[i]);
        }
    }
}

proof fn lemma_drop_last_no_duplicates<A>(s: Seq<A>)
    requires
        s.len() > 0,
        s.no_duplicates(),
    ensures
        s.drop_last().no_duplicates(),
        !s.drop_last().contains(s.last()),
{
    let p = s.drop_last();
    assert forall|i: int, j: int| 0 <= i < p.len() && 0 <= j < p.len() && i != j implies p[i]
        != p[j] by {
        assert(p[i] == s[i] && p[j] == s[j]);
    }
    if p.contains(s.last()) {
        let i = choose|i: int| 0 <= i < p.len() && p[i] == s.last();
        assert(s[i] == s[s.len() - 1]);
    }
}

proof fn lemma_without_handle(s: Seq<(Subscription, HandlerId)>, h: HandlerId)
    ensures
        forall|x: (Subscription, HandlerId)| #[trigger]
            without_handle(s, h).contains(x) <==> (s.contains(x) && x.1 != h),
        s.no_duplicates() ==> without_handle(s, h).no_duplicates(),
    decreases s.len(),
{
    if s.len() > 0 {
        let p = s.drop_last();
        let l = s.last();
        lemma_without_handle(p, h);
        assert(s == p.push(l));
        lemma_push_contains(p, l);
        lemma_push_contains(without_handle(p, h), l);
        if s.no_duplicates() {
            lemma_drop_last_no_duplicates(s);
            if l.1 != h {
                lemma_push_no_duplicates(without_handle(p, h), l);
            }
        }
    }
}

proof fn lemma_handles_for(s: Seq<(Subscription, HandlerId)>, t: Subscription)
    ensures
        forall|x: HandlerId| #[trigger] handles_for(s, t).contains(x) <==> s.contains((t, x)),
        s.no_duplicates() ==> handles_for(s, t).no_duplicates(),
    decreases s.len(),
{
    if s.len() > 0 {
        let p = s.drop_last();
        let l = s.last();
        lemma_handles_for(p, t);
        assert(s == p.push(l));
        lemma_push_contains(p, l);
        lemma_push_contains(handles_for(p, t), l.1);
        if s.no_duplicates() {
            lemma_drop_last_no_duplicates(s);
            if l.0 == t {
                lemma_push_no_duplicates(handles_for(p, t), l.1);
            }
        }
    }
}

/// Registry of (topic, subscriber) pairs, each held once.
pub struct Registry {
    pairs: Vec<(Subscription, HandlerId)>,
}

impl View for Registry {
    type V = Seq<(Subscription, HandlerId)>;

    closed spec fn view(&self) -> Seq<(Subscription, HandlerId)> {
        self.pairs@
    }
}

impl Registry {
    pub open spec fn wf(&self) -> bool {
        self@.no_duplicates()
    }

    pub fn new() -> (r: Registry)
        ensures
            r.wf(),
            r@ == Seq::<(Subscription, HandlerId)>::empty(),
    {
        Registry { pairs: Vec::new() }
    }

    /// Whether the pair `(t, h)` is registered.
    pub fn contains(&self, t: Subscription, h: HandlerId) -> (r: bool)
        ensures
            r == self@.contains((t, h)),
    {
        let mut i: usize = 0;
        while i < self.pairs.len()
            invariant
                i <= self.pairs@.len(),
                forall|j: int| 0 <= j < i ==> self.pairs@[j] != (t, h),
            decreases self.pairs@.len() - i,
        {
            if self.pairs[i].0 == t && self.pairs[i].1 == h {
                return true;
            }
            i += 1;
        }
        false
    }

    /// Subscribes `h` to `t`; subscribing a pair twice is the same as once.
    pub fn insert(&mut self, t: Subscription, h: HandlerId)
        requires
            old(self).wf(),
        ensures
            final(self).wf(),
            final(self)@ == subscribed(old(self)@, t, h),
    {
        if !self.contains(t, h) {
            self.pairs.push((t, h));
        }
    }

    /// Removes every pair of handle `h`, whatever its topic.
    pub fn remove_by_value(&mut self, h: HandlerId)
        requires
            old(self).wf(),
        ensures
            final(self).wf(),
            final(self)@ == without_handle(old(self)@, h),
    {
        let mut kept: Vec<(Subscription, HandlerId)> = Vec::new();
        let mut i: usize = 0;
        while i < self.pairs.len()
            invariant
                i <= self.pairs@.len(),
                kept@ == without_handle(self.pairs@.take(i as int), h),
            decreases self.pairs@.len() - i,
        {
            let p = self.pairs[i];
            assert(self.pairs@.take(i + 1).drop_last() == self.pairs@.take(i as int));
            if p.1 != h {
                kept.push(p);
            }
            i += 1;
        }
        assert(self.pairs@.take(i as int) == self.pairs@);
        proof {
            lemma_without_handle(self.pairs@, h);
        }
        self.pairs = kept;
    }

    /// The handles subscribed to `t`, in registration order.
    pub fn get_by_key(&self, t: Subscription) -> (r: Vec<HandlerId>)
        ensures
            r@ == handles_for(self@, t),
    {
        let mut out: Vec<HandlerId> = Vec::new();
        let mut i: usize = 0;
        while i < self.pairs.len()
            invariant
                i <= self.pairs@.len(),
                out@ == handles_for(self.pairs@.take(i as int), t),
            decreases self.pairs@.len() - i,
        {
            let p = self.pairs[i];
            assert(self.pairs@.take(i + 1).drop_last() == self.pairs@.take(i as int));
            if p.0 == t {
                out.push(p.1);
            }
            i += 1;
        }
        assert(self.pairs@.take(i as int) == self.pairs@);
        out
    }
}

impl Default for Registry {
    fn default() -> (r: Registry)
        ensures
            r.wf(),
            r@ == Seq::<(Subscription, HandlerId)>::empty(),
    {
        Registry::new()
    }
}

/// After a handle subscribes and then unsubscribes from everything, no pair of
/// that handle is left, whatever the topic.
pub proof fn lemma_unsubscribe_all_clears(
    s: Seq<(Subscription, HandlerId)>,
    t: Subscription,
    h: HandlerId,
)
    ensures
        forall|u: Subscription| !(#[trigger] without_handle(subscribed(s, t, h), h).contains((u, h))),
        forall|u: Subscription| !(#[trigger] handles_for(without_handle(subscribed(s, t, h), h), u).contains(h)),
{
    lemma_without_handle(subscribed(s, t, h), h);
    assert forall|u: Subscription| !(#[trigger] handles_for(without_handle(subscribed(s, t, h), h), u).contains(h)) by {
        lemma_handles_for(without_handle(subscribed(s, t, h), h), u);
    }
}

/// Subscribing the same pair twice leaves the registry as subscribing once,
/// and a notification of the topic then reaches the handle exactly once.
pub proof fn lemma_subscribe_idempotent(s: Seq<(Subscription, HandlerId)>, t: Subscription, h: HandlerId)
    requires
        s.no_duplicates(),
    ensures
        subscribed(subscribed(s, t, h), t, h) == subscribed(s, t, h),
        handles_for(subscribed(subscribed(s, t, h), t, h), t).to_multiset().count(h) == 1,
{
    let once = subscribed(s, t, h);
    assert(once.contains((t, h))) by {
        if !s.contains((t, h)) {
            assert(once[once.len() - 1] == (t, h));
        }
    }
    assert(once.no_duplicates());
    lemma_handles_for(once, t);
    let hs = handles_for(once, t);
    hs.to_multiset_ensures();
    hs.lemma_multiset_has_no_duplicates();
}

} // verus!
