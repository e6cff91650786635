use board_state::{
    Agent, AuthKey, Effect, Message, Post, Request, State, Subscription, Thread, ThreadDecoder,
    Unsupported,
};

fn thread(id: u64, subject: &str) -> Thread {
    Thread {
        id,
        page: 0,
        subject: subject.to_string(),
        tags: vec![],
        bumped_on: 0,
        created_on: 0,
        post_count: 0,
        image_count: 0,
    }
}

fn post(id: u64, thread: u64) -> Post {
    Post {
        id,
        page: 0,
        thread,
        created_on: 0,
        open: false,
        name: None,
        trip: None,
        flag: None,
        sage: false,
        body: None,
        image: None,
    }
}

fn empty_state() -> State {
    State::new(AuthKey { bytes: vec![0; 64] })
}

fn start_fetch(agent: &mut Agent, state: &mut State, sync: bool) -> u64 {
    let effects = agent.handle_input(state, Request::FetchFeed { id: 0, sync }, 99);
    assert_eq!(effects.len(), 1);
    match effects[0] {
        Effect::StartFetch { fetch, sync: s } => {
            assert_eq!(s, sync);
            fetch
        }
        _ => panic!("expected a fetch to start"),
    }
}

fn subscribe(agent: &mut Agent, state: &mut State, topic: Subscription, handle: u64) {
    let effects = agent.handle_input(state, Request::Subscribe(topic), handle);
    assert!(effects.is_empty());
}

#[test]
fn scenario_single_empty_thread() {
    let mut state = empty_state();
    let mut agent = Agent::create();
    subscribe(&mut agent, &mut state, Subscription::ThreadChange(5), 1);
    subscribe(&mut agent, &mut state, Subscription::ThreadListChange, 1);
    let fetch = start_fetch(&mut agent, &mut state, false);
    let data = vec![ThreadDecoder { thread_data: thread(5, "Test"), posts: vec![] }];
    let effects = agent.update(&mut state, Message::FetchedThreadIndex { fetch, data, sync: false });
    assert_eq!(
        effects,
        vec![
            Effect::Respond(1, Subscription::ThreadChange(5)),
            Effect::Respond(1, Subscription::ThreadListChange),
        ]
    );
    assert_eq!(state.threads.len(), 1);
    assert_eq!(state.threads[&5].subject, "Test");
    assert!(state.posts_by_thread.get(5).map_or(true, |s| s.is_empty()));
    assert!(agent.pending.is_none());
}

#[test]
fn scenario_thread_with_two_posts() {
    let mut state = empty_state();
    let mut agent = Agent::create();
    subscribe(&mut agent, &mut state, Subscription::ThreadListChange, 1);
    subscribe(&mut agent, &mut state, Subscription::ThreadChange(5), 1);
    subscribe(&mut agent, &mut state, Subscription::PostChange(11), 1);
    subscribe(&mut agent, &mut state, Subscription::PostChange(10), 1);
    let fetch = start_fetch(&mut agent, &mut state, false);
    let data = vec![ThreadDecoder { thread_data: thread(5, "Test"), posts: vec![post(10, 5), post(11, 5)] }];
    let effects = agent.update(&mut state, Message::FetchedThreadIndex { fetch, data, sync: false });
    assert_eq!(
        effects,
        vec![
            Effect::Respond(1, Subscription::PostChange(10)),
            Effect::Respond(1, Subscription::PostChange(11)),
            Effect::Respond(1, Subscription::ThreadChange(5)),
            Effect::Respond(1, Subscription::ThreadListChange),
        ]
    );
    let index = state.posts_by_thread.get(5).unwrap();
    assert_eq!(index.len(), 2);
    assert!(index.contains(&10) && index.contains(&11));
    assert_eq!(state.posts.len(), 2);
}

#[test]
fn thread_list_change_sent_once_for_empty_batch() {
    let mut state = empty_state();
    let mut agent = Agent::create();
    subscribe(&mut agent, &mut state, Subscription::ThreadListChange, 3);
    subscribe(&mut agent, &mut state, Subscription::ThreadListChange, 4);
    let fetch = start_fetch(&mut agent, &mut state, false);
    let effects = agent.update(&mut state, Message::FetchedThreadIndex { fetch, data: vec![], sync: false });
    assert_eq!(
        effects,
        vec![
            Effect::Respond(3, Subscription::ThreadListChange),
            Effect::Respond(4, Subscription::ThreadListChange),
        ]
    );
}

#[test]
fn scenario_superseded_fetch_is_dropped() {
    let mut state = empty_state();
    let mut agent = Agent::create();
    subscribe(&mut agent, &mut state, Subscription::ThreadListChange, 1);
    let first = start_fetch(&mut agent, &mut state, false);
    let second = start_fetch(&mut agent, &mut state, false);
    assert_ne!(first, second);
    let stale = vec![ThreadDecoder { thread_data: thread(1, "old"), posts: vec![post(2, 1)] }];
    let effects = agent.update(&mut state, Message::FetchedThreadIndex { fetch: first, data: stale, sync: false });
    assert!(effects.is_empty());
    assert!(state.threads.is_empty());
    assert!(state.posts.is_empty());
    let fresh = vec![ThreadDecoder { thread_data: thread(7, "new"), posts: vec![] }];
    let effects = agent.update(&mut state, Message::FetchedThreadIndex { fetch: second, data: fresh, sync: false });
    assert_eq!(effects, vec![Effect::Respond(1, Subscription::ThreadListChange)]);
    assert!(state.threads.contains_key(&7));
    assert!(!state.threads.contains_key(&1));
    let late = vec![ThreadDecoder { thread_data: thread(8, "late"), posts: vec![] }];
    let effects = agent.update(&mut state, Message::FetchedThreadIndex { fetch: first, data: late, sync: false });
    assert!(effects.is_empty());
    assert!(!state.threads.contains_key(&8));
}

#[test]
fn scenario_failed_fetch_leaves_store() {
    let mut state = empty_state();
    let mut agent = Agent::create();
    subscribe(&mut agent, &mut state, Subscription::ThreadListChange, 1);
    let fetch = start_fetch(&mut agent, &mut state, false);
    let effects = agent.update(
        &mut state,
        Message::FetchFailed { fetch, reason: "error fetching thread index: 500".to_string() },
    );
    assert_eq!(effects, vec![Effect::ReportError("error fetching thread index: 500".to_string())]);
    assert!(state.threads.is_empty());
    assert!(state.posts.is_empty());
    assert!(agent.pending.is_none());
    let next = start_fetch(&mut agent, &mut state, false);
    assert_eq!(agent.pending, Some(next));
}

#[test]
fn fetch_of_single_thread_is_unsupported() {
    let mut state = empty_state();
    let mut agent = Agent::create();
    let effects = agent.handle_input(&mut state, Request::FetchFeed { id: 3, sync: false }, 1);
    assert_eq!(effects, vec![Effect::Unsupported(Unsupported::FetchThread)]);
    assert!(agent.pending.is_none());
}

#[test]
fn sync_after_fetch_is_unsupported() {
    let mut state = empty_state();
    let mut agent = Agent::create();
    let fetch = start_fetch(&mut agent, &mut state, true);
    let data = vec![ThreadDecoder { thread_data: thread(5, "Test"), posts: vec![] }];
    let effects = agent.update(&mut state, Message::FetchedThreadIndex { fetch, data, sync: true });
    assert_eq!(effects, vec![Effect::Unsupported(Unsupported::SyncToFeed)]);
    assert!(state.threads.contains_key(&5));
}

#[test]
fn set_auth_key_persists_and_notifies() {
    let mut state = empty_state();
    let mut agent = Agent::create();
    subscribe(&mut agent, &mut state, Subscription::AuthKey, 2);
    subscribe(&mut agent, &mut state, Subscription::FeedID, 3);
    let effects = agent.handle_input(&mut state, Request::SetAuthKey(AuthKey { bytes: vec![255; 64] }), 9);
    let text = format!("{}w==", "/".repeat(85));
    assert_eq!(effects, vec![Effect::PersistKey(text), Effect::Respond(2, Subscription::AuthKey)]);
    assert_eq!(state.auth_key.bytes, vec![255; 64]);
}

#[test]
fn disconnected_handle_gets_nothing() {
    let mut state = empty_state();
    let mut agent = Agent::create();
    subscribe(&mut agent, &mut state, Subscription::ThreadListChange, 1);
    subscribe(&mut agent, &mut state, Subscription::ThreadListChange, 2);
    agent.disconnected(1);
    let fetch = start_fetch(&mut agent, &mut state, false);
    let effects = agent.update(&mut state, Message::FetchedThreadIndex { fetch, data: vec![], sync: false });
    assert_eq!(effects, vec![Effect::Respond(2, Subscription::ThreadListChange)]);
}
