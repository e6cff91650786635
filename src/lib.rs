//! Client-side synchronization core of a discussion board: a normalized store
//! of threads and posts with a post-by-thread index, a subscriber registry for
//! change notifications, the feed-fetch state machine and the authentication
//! key codec.
pub mod agent;
pub mod auth_key;
pub mod init;
pub mod registry;
pub mod set_map;
pub mod store;

pub use agent::{Agent, Effect, Message, Request, ThreadDecoder, Unsupported};
pub use auth_key::{decode_key, encode_key, load_or_create, AuthKey, LoadedKey};
pub use init::{feed_id, init};
pub use registry::{HandlerId, Registry, Subscription};
pub use set_map::SetMap;
pub use store::{Image, Node, Options, Post, State, Thread};
