use kv_search::chat_room::{parse_role, recipients, ClientIds, Role};
use kv_search::kv::kv_handle::KvHandle;
use kv_search::kv::kv_store;
use kv_search::kv::KvStore;
use kv_search::log::{plan_write, Logger, MAX_FILE_SIZE};
use kv_search::node::Node;
use kv_search::server::{
    apply_command, AttemptOutcome, Command, Reply, Retry, RetryPolicy, RetryStep,
};
use kv_search::string_map::StringMap;
use kv_search::warm_up::{parse_operation, shell_step, Operations, ShellOutcome, ShellReply};

#[test]
fn kv_store_set_returns_the_replaced_value() {
    let mut store: kv_store::KvStore<u64, String> = kv_store::KvStore::new();
    assert_eq!(store.set(1, "one".to_string()), None);
    assert_eq!(store.set(1, "uno".to_string()), Some("one".to_string()));
    assert_eq!(store.get(&1), Some(&"uno".to_string()));
    assert_eq!(store.get(&2), None);
}

#[test]
fn kv_store_set_always_succeeds() {
    let mut store: KvStore<String, u32> = KvStore::new();
    assert!(store.set("a".to_string(), 1));
    assert!(store.set("a".to_string(), 2));
    assert_eq!(store.get(&"a".to_string()), Some(&2));
    assert_eq!(store.get(&"b".to_string()), None);
}

#[test]
fn kv_handle_starts_empty_and_is_shared() {
    let handle: KvHandle<u32, u32> = KvHandle::new();
    let other = handle.store.clone();
    handle.store.write().unwrap().set(5, 50);
    assert_eq!(other.read().unwrap().get(&5), Some(&50));
    assert_eq!(other.read().unwrap().get(&6), None);
}

#[test]
fn string_map_insert_get_remove() {
    let mut m = StringMap::new();
    assert_eq!(m.insert("k".to_string(), "v1".to_string()), None);
    assert_eq!(m.insert("k".to_string(), "v2".to_string()), Some("v1".to_string()));
    assert_eq!(m.insert("j".to_string(), "w".to_string()), None);
    assert_eq!(m.get("k"), Some(&"v2".to_string()));
    assert_eq!(m.remove_entry("k"), Some(("k".to_string(), "v2".to_string())));
    assert_eq!(m.get("k"), None);
    assert_eq!(m.get("j"), Some(&"w".to_string()));
    assert_eq!(m.remove("k"), None);
}

fn found(r: Reply) -> Option<String> {
    match r {
        Reply::Found(v) => v,
        _ => panic!("not a read"),
    }
}

#[test]
fn worker_answers_reads_with_the_last_write() {
    let mut state = StringMap::new();
    let r = apply_command(&mut state, Command::Put { key: "anil".to_string(), value: "pandey-1".to_string() });
    assert!(matches!(r, Reply::Stored));
    let r = apply_command(&mut state, Command::Put { key: "anil".to_string(), value: "pandey-2".to_string() });
    assert!(matches!(r, Reply::Stored));
    let r = apply_command(&mut state, Command::Get { key: "anil".to_string() });
    assert_eq!(found(r), Some("pandey-2".to_string()));
    let r = apply_command(&mut state, Command::Get { key: "nobody".to_string() });
    assert_eq!(found(r), None);
}

#[test]
fn worker_delete_reports_presence() {
    let mut state = StringMap::new();
    apply_command(&mut state, Command::Put { key: "k".to_string(), value: "v".to_string() });
    assert!(matches!(apply_command(&mut state, Command::Delete { key: "k".to_string() }), Reply::Deleted(true)));
    assert!(matches!(apply_command(&mut state, Command::Delete { key: "k".to_string() }), Reply::Deleted(false)));
    assert_eq!(found(apply_command(&mut state, Command::Get { key: "k".to_string() })), None);
    assert!(matches!(apply_command(&mut state, Command::Shutdown), Reply::Stopped));
}

#[test]
fn retry_waits_100_then_200_and_stops_after_three_attempts() {
    let mut r = Retry::new(RetryPolicy::EveryFailure);
    assert_eq!(r.current_attempt(), 1);
    assert!(matches!(r.next_step::<u32>(AttemptOutcome::TimedOut), RetryStep::RetryAfter(100)));
    assert_eq!(r.current_attempt(), 2);
    assert!(matches!(r.next_step::<u32>(AttemptOutcome::Dropped), RetryStep::RetryAfter(200)));
    assert_eq!(r.current_attempt(), 3);
    match r.next_step::<u32>(AttemptOutcome::TimedOut) {
        RetryStep::Finish(Err(e)) => assert_eq!(e, "timeout"),
        _ => panic!("expected a timeout"),
    }
}

#[test]
fn retry_reports_the_last_failure() {
    let mut r = Retry::new(RetryPolicy::EveryFailure);
    assert!(matches!(r.next_step::<u32>(AttemptOutcome::Failed("x".to_string())), RetryStep::RetryAfter(100)));
    assert!(matches!(r.next_step::<u32>(AttemptOutcome::Failed("y".to_string())), RetryStep::RetryAfter(200)));
    match r.next_step::<u32>(AttemptOutcome::Dropped) {
        RetryStep::Finish(Err(e)) => assert_eq!(e, "response channel dropped"),
        _ => panic!("expected a dropped channel"),
    }
    let mut r = Retry::new(RetryPolicy::EveryFailure);
    r.next_step::<u32>(AttemptOutcome::TimedOut);
    r.next_step::<u32>(AttemptOutcome::TimedOut);
    match r.next_step::<u32>(AttemptOutcome::Failed("boom".to_string())) {
        RetryStep::Finish(Err(e)) => assert_eq!(e, "boom"),
        _ => panic!("expected the error"),
    }
}

#[test]
fn retry_success_finishes_at_once() {
    let mut r = Retry::new(RetryPolicy::EveryFailure);
    assert!(matches!(r.next_step(AttemptOutcome::Success(9u32)), RetryStep::Finish(Ok(9))));
    let mut r = Retry::new(RetryPolicy::TimeoutsOnly);
    r.next_step::<u32>(AttemptOutcome::TimedOut);
    assert!(matches!(r.next_step(AttemptOutcome::Success(7u32)), RetryStep::Finish(Ok(7))));
}

#[test]
fn timeouts_only_policy_fails_fast_on_errors() {
    let mut r = Retry::new(RetryPolicy::TimeoutsOnly);
    match r.next_step::<u32>(AttemptOutcome::Failed("bad".to_string())) {
        RetryStep::Finish(Err(e)) => assert_eq!(e, "bad"),
        _ => panic!("expected the error"),
    }
    let mut r = Retry::new(RetryPolicy::TimeoutsOnly);
    match r.next_step::<u32>(AttemptOutcome::Dropped) {
        RetryStep::Finish(Err(e)) => assert_eq!(e, "response channel dropped"),
        _ => panic!("expected a dropped channel"),
    }
    let mut r = Retry::new(RetryPolicy::TimeoutsOnly);
    assert!(matches!(r.next_step::<u32>(AttemptOutcome::TimedOut), RetryStep::RetryAfter(100)));
}

#[test]
fn parse_operation_accepts_three_spellings() {
    for s in ["set", "Set", "SET"] {
        assert!(parse_operation(s) == Ok(Operations::Put));
    }
    for s in ["get", "Get", "GET"] {
        assert!(parse_operation(s) == Ok(Operations::Get));
    }
    for s in ["delete", "Delete", "DELETE"] {
        assert!(parse_operation(s) == Ok(Operations::Delete));
    }
    assert!(parse_operation("sEt") == Err("Invalide ops"));
    assert!("GET".parse::<Operations>() == Ok(Operations::Get));
}

fn reply(o: ShellOutcome) -> ShellReply {
    match o {
        ShellOutcome::Handled(_, r) => r,
        _ => panic!("line not handled"),
    }
}

#[test]
fn shell_runs_set_get_delete() {
    let mut state = StringMap::new();
    assert!(matches!(reply(shell_step(&mut state, "set a 1\n")), ShellReply::Stored));
    let r = reply(shell_step(&mut state, "get a"));
    assert_eq!(r.message(), Some("Value is 1".to_string()));
    let r = reply(shell_step(&mut state, "DELETE a"));
    assert_eq!(r.message(), Some("delete key: a with it's value: 1".to_string()));
    let r = reply(shell_step(&mut state, "get a"));
    assert_eq!(r.message(), Some("Nothing is here!!..".to_string()));
    let r = reply(shell_step(&mut state, "delete a"));
    assert_eq!(r.message(), Some("Nothing to dele".to_string()));
}

#[test]
fn shell_rejects_malformed_lines() {
    let mut state = StringMap::new();
    assert!(matches!(shell_step(&mut state, "  exit  \n"), ShellOutcome::Exit));
    assert!(matches!(shell_step(&mut state, "get"), ShellOutcome::WrongArity));
    assert!(matches!(shell_step(&mut state, "set a b c"), ShellOutcome::WrongArity));
    assert!(matches!(shell_step(&mut state, ""), ShellOutcome::WrongArity));
    let r = reply(shell_step(&mut state, "set a"));
    assert_eq!(r.message(), Some("Invalide SET!!..".to_string()));
    let r = reply(shell_step(&mut state, "get a b"));
    assert!(matches!(r, ShellReply::Silent));
    assert_eq!(r.message(), None);
    let r = reply(shell_step(&mut state, "put a b"));
    assert_eq!(r.message(), Some("failed to understand it ".to_string()));
    match shell_step(&mut state, "exit now") {
        ShellOutcome::Handled(words, r) => {
            assert_eq!(words, vec!["exit", "now"]);
            assert!(matches!(r, ShellReply::Unknown));
        }
        _ => panic!("two words are handled"),
    }
}

#[test]
fn roles_parse_in_three_spellings() {
    assert!(parse_role("server") == Ok(Role::Server));
    assert!(parse_role("CLIENT") == Ok(Role::Client));
    assert!(parse_role("Client") == Ok(Role::Client));
    assert!(parse_role("peer") == Err("pass the valid argument"));
    assert!("SERVER".parse::<Role>() == Ok(Role::Server));
}

#[test]
fn broadcast_skips_the_sender() {
    let clients = vec![(0usize, "a"), (3, "b"), (1, "c"), (3, "d")];
    assert_eq!(recipients(clients.clone(), 3), vec!["a", "c"]);
    assert_eq!(recipients(clients.clone(), 7), vec!["a", "b", "c", "d"]);
    assert_eq!(recipients(Vec::<(usize, u8)>::new(), 0), Vec::<u8>::new());
}

#[test]
fn node_ids_are_v4_uuids() {
    let n = Node::new(true, "10.0.0.1:80".to_string());
    assert_eq!(n.id.len(), 36);
    let chars: Vec<char> = n.id.chars().collect();
    for (i, c) in chars.iter().enumerate() {
        if i == 8 || i == 13 || i == 18 || i == 23 {
            assert_eq!(*c, '-');
        } else {
            assert!(c.is_ascii_hexdigit() && !c.is_ascii_uppercase());
        }
    }
    assert_eq!(chars[14], '4');
    assert!("89ab".contains(chars[19]));
    assert_eq!(n.leader_address, Some("10.0.0.1:80".to_string()));
    assert!(n.follower_address.is_empty());
    assert_eq!(n.log_checksum, "");
    let f = Node::new(false, "10.0.0.1:80".to_string());
    assert_eq!(f.leader_address, None);
    assert_ne!(f.id, n.id);
}

#[test]
fn node_with_id_keeps_the_id() {
    let n = Node::with_id("abc".to_string(), false, "x".to_string());
    assert_eq!(n.id, "abc");
    assert_eq!(n.leader_address, None);
}

#[test]
fn log_rotates_only_when_full() {
    let p = plan_write(10, 5);
    assert!(!p.rotate);
    assert_eq!(p.size_after, 15);
    let p = plan_write(MAX_FILE_SIZE, 7);
    assert!(p.rotate);
    assert_eq!(p.size_after, 7);
    let p = plan_write(MAX_FILE_SIZE - 1, 7);
    assert!(!p.rotate);
    assert_eq!(p.size_after, MAX_FILE_SIZE + 6);
}

#[test]
fn logger_reads_its_channel() {
    let (tx, rx) = std::sync::mpsc::channel::<String>();
    let logger = Logger::new(rx);
    tx.send("hello".to_string()).unwrap();
    assert_eq!(logger.messages().recv().unwrap(), "hello");
}

#[test]
fn kv_store_journals_each_write_in_order() {
    let mut store: KvStore<String, u32> = KvStore::new();
    assert!(store.take_records().is_empty());
    store.set("a".to_string(), 1);
    store.set("b".to_string(), 2);
    store.set("a".to_string(), 3);
    assert_eq!(
        store.take_records(),
        vec![("a".to_string(), 1), ("b".to_string(), 2), ("a".to_string(), 3)]
    );
    assert!(store.take_records().is_empty());
    assert_eq!(store.get(&"a".to_string()), Some(&3));
}

#[test]
fn log_counter_follows_the_current_file() {
    let mut size = MAX_FILE_SIZE - 10;
    let p = plan_write(size, 20);
    assert!(!p.rotate);
    size = p.size_after;
    assert_eq!(size, MAX_FILE_SIZE + 10);
    let p = plan_write(size, 5);
    assert!(p.rotate);
    size = p.size_after;
    assert_eq!(size, 5);
    let p = plan_write(size, 7);
    assert!(!p.rotate);
    assert_eq!(p.size_after, 12);
}

#[test]
fn client_ids_are_never_reused() {
    let mut ids = ClientIds::new();
    assert!(ids.can_assign());
    assert_eq!(ids.assign(), 0);
    assert_eq!(ids.assign(), 1);
    assert_eq!(ids.assign(), 2);
}
