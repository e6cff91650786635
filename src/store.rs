//! The normalized entity store: threads, posts and the post-by-thread index.
use crate::auth_key::AuthKey;
use crate::set_map::SetMap;
use std::collections::{HashMap, HashSet};
use vstd::prelude::*;

verus! {

broadcast use vstd::std_specs::hash::group_hash_axioms;

/// Global user-set options.
pub struct Options {
    pub forced_anonymity: bool,
    pub relative_timestamps: bool,
}

impl Default for Options {
    fn default() -> (r: Options)
        ensures
            !r.forced_anonymity,
            r.relative_timestamps,
    {
        Options { forced_anonymity: false, relative_timestamps: true }
    }
}

/// Thread information container.
pub struct Thread {
    pub id: u64,
    pub page: u32,
    pub subject: String,
    pub tags: Vec<String>,
    pub bumped_on: u32,
    pub created_on: u32,
    pub post_count: u64,
    pub image_count: u64,
}

/// A node of a parsed post body.
pub enum Node {
    Empty,
    Text(String),
    Newline,
    Children(Vec<Node>),
}

/// Metadata of an image attached to a post.
pub struct Image {
    pub name: String,
    pub file_type: u8,
    pub size: u64,
    pub width: u16,
    pub height: u16,
    pub spoiler: bool,
}

/// Post data.
pub struct Post {
    pub id: u64,
    pub page: u32,
    pub thread: u64,
    pub created_on: u32,
    pub open: bool,
    pub name: Option<String>,
    pub trip: Option<String>,
    pub flag: Option<String>,
    pub sage: bool,
    pub body: Option<Node>,
    pub image: Option<Image>,
}

/// The identifiers of the posts in `posts` that belong to thread `t`.
pub open spec fn posts_of_thread(posts: Map<u64, Post>, t: u64) -> Set<u64> {
    Set::new(|p: u64| posts.contains_key(p) && posts[p].thread == t)
}

/// The index holds, under every thread, exactly the posts of that thread.
pub open spec fn index_matches(posts: Map<u64, Post>, index: SetMap) -> bool {
    forall|t: u64| #[trigger] index.bucket(t) == posts_of_thread(posts, t)
}

/// Client state: the entities received so far, the user's key and options.
pub struct State {
    /// Currently subscribed to thread, or 0 for the global thread index.
    pub feed: u64,
    /// All registered threads.
    pub threads: HashMap<u64, Thread>,
    /// All registered posts from any source.
    pub posts: HashMap<u64, Post>,
    /// Post IDs by thread.
    pub posts_by_thread: SetMap,
    /// Authentication key.
    pub auth_key: AuthKey,
    /// Global user-set options.
    pub options: Options,
    /// Posts this user has made.
    pub mine: HashSet<u64>,
}

impl State {
    /// Every post is stored under its own ID and the index matches the posts.
    pub open spec fn wf(&self) -> bool {
        &&& forall|k: u64| #[trigger] self.posts@.contains_key(k) ==> self.posts@[k].id == k
        &&& forall|k: u64| #[trigger] self.threads@.contains_key(k) ==> self.threads@[k].id == k
        &&& index_matches(self.posts@, self.posts_by_thread)
        &&& self.auth_key.wf()
    }

    /// An empty store holding `auth_key`.
    pub fn new(auth_key: AuthKey) -> (r: State)
        requires
            auth_key.wf(),
        ensures
            r.wf(),
            r.feed == 0,
            r.threads@ == Map::<u64, Thread>::empty(),
            r.posts@ == Map::<u64, Post>::empty(),
            r.mine@ == Set::<u64>::empty(),
            r.auth_key == auth_key,
            !r.options.forced_anonymity,
            r.options.relative_timestamps,
    {
        let r = State {
            feed: 0,
            threads: HashMap::new(),
            posts: HashMap::new(),
            posts_by_thread: SetMap::new(),
            auth_key,
            options: Options::default(),
            mine: HashSet::new(),
        };
        assert forall|t: u64| #[trigger] r.posts_by_thread.bucket(t) == posts_of_thread(r.posts@, t) by {
            assert(posts_of_thread(r.posts@, t) =~= Set::<u64>::empty());
        }
        r
    }

    /// Inserts or replaces a post, keeping the post-by-thread index exact.
    pub fn insert_post(&mut self, p: Post)
        requires
            old(self).wf(),
        ensures
            final(self).wf(),
            final(self).posts@ == old(self).posts@.insert(p.id, p),
            final(self).threads@ == old(self).threads@,
            final(self).feed == old(self).feed,
            final(self).auth_key == old(self).auth_key,
            final(self).options == old(self).options,
            final(self).mine@ == old(self).mine@,
    {
        let id = p.id;
        let t = p.thread;
        match self.posts.get(&id) {
            Some(prev) => {
                let pt = prev.thread;
                self.posts_by_thread.remove(pt, id);
            },
            None => {},
        }
        self.posts_by_thread.insert(t, id);
        self.posts.insert(id, p);
        assert forall|u: u64| #[trigger]
            self.posts_by_thread.bucket(u) == posts_of_thread(self.posts@, u) by {
            assert(old(self).posts_by_thread.bucket(u) == posts_of_thread(old(self).posts@, u));
            assert(self.posts_by_thread.bucket(u) =~= posts_of_thread(self.posts@, u));
        }
    }

    /// Inserts or replaces a thread.
    pub fn insert_thread(&mut self, t: Thread)
        requires
            old(self).wf(),
        ensures
            final(self).wf(),
            final(self).threads@ == old(self).threads@.insert(t.id, t),
            final(self).posts@ == old(self).posts@,
            final(self).posts_by_thread@ == old(self).posts_by_thread@,
            final(self).feed == old(self).feed,
            final(self).auth_key == old(self).auth_key,
            final(self).options == old(self).options,
            final(self).mine@ == old(self).mine@,
    {
        let id = t.id;
        self.threads.insert(id, t);
    }
}

} // verus!
