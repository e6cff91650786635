use board_state::{AuthKey, Options, Post, Registry, SetMap, State, Subscription, Thread};

fn post(id: u64, thread: u64) -> Post {
    Post {
        id,
        page: 0,
        thread,
        created_on: 0,
        open: true,
        name: Some("anon".to_string()),
        trip: None,
        flag: None,
        sage: false,
        body: None,
        image: None,
    }
}

#[test]
fn options_default() {
    let o = Options::default();
    assert!(!o.forced_anonymity);
    assert!(o.relative_timestamps);
}

#[test]
fn index_follows_inserted_posts() {
    let mut s = State::new(AuthKey { bytes: vec![1; 64] });
    s.insert_post(post(1, 10));
    s.insert_post(post(2, 10));
    s.insert_post(post(3, 20));
    assert!(s.posts_by_thread.contains(10, 1));
    assert!(s.posts_by_thread.contains(10, 2));
    assert!(!s.posts_by_thread.contains(10, 3));
    assert_eq!(s.posts_by_thread.get(20).unwrap().len(), 1);
    // A replacement that moves the post leaves no entry behind.
    s.insert_post(post(2, 20));
    assert!(!s.posts_by_thread.contains(10, 2));
    assert!(s.posts_by_thread.contains(20, 2));
    assert_eq!(s.posts_by_thread.get(10).unwrap().len(), 1);
    assert_eq!(s.posts.len(), 3);
    assert_eq!(s.posts[&2].thread, 20);
}

#[test]
fn replacing_a_post_overwrites_it() {
    let mut s = State::new(AuthKey { bytes: vec![1; 64] });
    s.insert_post(post(5, 1));
    let mut p = post(5, 1);
    p.sage = true;
    s.insert_post(p);
    assert_eq!(s.posts.len(), 1);
    assert!(s.posts[&5].sage);
    assert_eq!(s.posts_by_thread.get(1).unwrap().len(), 1);
}

#[test]
fn inserting_a_thread_overwrites_it() {
    let mut s = State::new(AuthKey { bytes: vec![1; 64] });
    let t = |subject: &str| Thread {
        id: 4,
        page: 1,
        subject: subject.to_string(),
        tags: vec!["a".to_string()],
        bumped_on: 2,
        created_on: 1,
        post_count: 3,
        image_count: 0,
    };
    s.insert_thread(t("first"));
    s.insert_thread(t("second"));
    assert_eq!(s.threads.len(), 1);
    assert_eq!(s.threads[&4].subject, "second");
}

#[test]
fn set_map_insert_and_remove() {
    let mut m = SetMap::new();
    assert!(m.get(1).is_none());
    m.insert(1, 2);
    m.insert(1, 2);
    m.insert(1, 3);
    assert_eq!(m.get(1).unwrap().len(), 2);
    m.remove(1, 2);
    assert!(!m.contains(1, 2));
    assert!(m.contains(1, 3));
    m.remove(9, 9);
    assert!(m.get(9).is_none());
}

#[test]
fn unsubscribe_all_removes_every_topic() {
    let mut r = Registry::new();
    r.insert(Subscription::FeedID, 7);
    r.insert(Subscription::PostChange(3), 7);
    r.insert(Subscription::PostChange(3), 8);
    r.remove_by_value(7);
    assert!(!r.contains(Subscription::FeedID, 7));
    assert!(!r.contains(Subscription::PostChange(3), 7));
    assert!(r.get_by_key(Subscription::FeedID).is_empty());
    assert_eq!(r.get_by_key(Subscription::PostChange(3)), vec![8]);
}

#[test]
fn double_subscribe_delivers_once() {
    let mut r = Registry::new();
    r.insert(Subscription::ThreadChange(1), 4);
    r.insert(Subscription::ThreadChange(1), 4);
    assert_eq!(r.get_by_key(Subscription::ThreadChange(1)), vec![4]);
    assert!(r.get_by_key(Subscription::ThreadChange(2)).is_empty());
}
