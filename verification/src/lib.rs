//! A small key-value and full-text search toolkit: whitespace tokenising,
//! a word index over documents, key-value stores, the decision logic of a
//! key-value server and its retrying clients, a command-line key-value shell,
//! log-file rotation, cluster node records and chat-room routing.
pub mod chat_room;
pub mod documents;
pub mod kv;
pub mod log;
pub mod node;
pub mod search_engine;
pub mod server;
pub mod string_map;
pub mod text;
pub mod warm_up;
