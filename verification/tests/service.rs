use secret_message_store::error::{decimal, Error, ErrorKind};
use secret_message_store::message::{SecretMessage, SecretMessagePayload};
use secret_message_store::service::{add_message, create, get_message, read};
use secret_message_store::store::{MessageStore, _get_message};

fn payload(content: &str, key: &str) -> SecretMessagePayload {
    SecretMessagePayload { encrypted_message: content.to_string(), secret_key: key.to_string() }
}

fn roles(names: &[&str]) -> Vec<String> {
    names.iter().map(|name| name.to_string()).collect()
}

fn wrong_key() -> Error {
    Error::Unauthorized { msg: "Unauthorized: Invalid secret key.".to_string() }
}

fn missing_role() -> Error {
    Error::Unauthorized { msg: "Unauthorized: The caller lacks the required role.".to_string() }
}

fn not_found(id: u64) -> Error {
    Error::NotFound { msg: format!("A message with id={} not found", id) }
}

#[test]
fn create_then_read_scenario() {
    let mut store = MessageStore::init().unwrap();
    assert_eq!(add_message(&mut store, payload("first", "F1rstSecret"), 5).map(|m| m.id), Ok(0));
    let now = 1_700_000_000_000_000_000;
    let created = add_message(&mut store, payload("abc", "Str0ngPwd"), now);
    assert_eq!(
        created,
        Ok(SecretMessage {
            id: 1,
            encrypted_message: "abc".to_string(),
            created_at: now,
            updated_at: None,
            secret_key: "Str0ngPwd".to_string(),
        })
    );
    assert_eq!(get_message(&store, 1, "wrongkey".to_string()), Err(wrong_key()));
    assert_eq!(get_message(&store, 1, "Str0ngPwd".to_string()), Ok("abc".to_string()));
    assert_eq!(get_message(&store, 99, "x".to_string()), Err(not_found(99)));
    assert_eq!(
        add_message(&mut store, payload("", ""), now),
        Err(Error::InvalidInput {
            msg: "Both encrypted_message and secret_key must be non-empty".to_string()
        })
    );
}

#[test]
fn first_identifier_is_zero() {
    let mut store = MessageStore::init().unwrap();
    let created = add_message(&mut store, payload("abc", "Str0ngPwd"), 1).unwrap();
    assert_eq!(created.id, 0);
    assert_eq!(get_message(&store, 0, "Str0ngPwd".to_string()), Ok("abc".to_string()));
}

#[test]
fn created_message_reads_back() {
    let mut store = MessageStore::init().unwrap();
    let now = 42;
    let created = add_message(&mut store, payload("héllo", "Str0ngPwd"), now).unwrap();
    let stored = _get_message(&store, &created.id).unwrap().unwrap();
    assert_eq!(stored, created);
    assert_eq!(stored.encrypted_message, "héllo");
    assert_eq!(stored.secret_key, "Str0ngPwd");
    assert!(stored.created_at <= now);
    assert_eq!(stored.created_at, 42);
    assert_eq!(stored.updated_at, None);
    assert_eq!(read(&store, created.id, None, None), Ok("héllo".to_string()));
}

#[test]
fn identifiers_rise_by_one() {
    let mut store = MessageStore::init().unwrap();
    for expected in 0..50u64 {
        let content = format!("message {}", expected);
        let created = add_message(&mut store, payload(&content, "Str0ngPwd"), expected).unwrap();
        assert_eq!(created.id, expected);
        assert_eq!(store.peek_next_id(), expected + 1);
    }
    for id in 0..50u64 {
        assert_eq!(
            get_message(&store, id, "Str0ngPwd".to_string()),
            Ok(format!("message {}", id))
        );
    }
}

#[test]
fn refused_creates_leave_no_gap() {
    let mut store = MessageStore::init().unwrap();
    assert_eq!(add_message(&mut store, payload("a", "Str0ngPwd"), 1).unwrap().id, 0);
    assert!(add_message(&mut store, payload("b", "short1"), 2).is_err());
    assert!(add_message(&mut store, payload("", "Str0ngPwd"), 3).is_err());
    assert!(create(&mut store, payload("c", "Str0ngPwd"), Some(&roles(&["user"])), 4).is_err());
    assert!(add_message(&mut store, payload(&"m".repeat(2000), "Str0ngPwd"), 5).is_err());
    assert_eq!(store.peek_next_id(), 1);
    assert_eq!(add_message(&mut store, payload("d", "Str0ngPwd"), 6).unwrap().id, 1);
    assert_eq!(add_message(&mut store, payload("e", "Str0ngPwd"), 7).unwrap().id, 2);
}

#[test]
fn read_of_unknown_identifier_is_not_found() {
    let mut store = MessageStore::init().unwrap();
    assert_eq!(get_message(&store, 0, "Str0ngPwd".to_string()), Err(not_found(0)));
    add_message(&mut store, payload("abc", "Str0ngPwd"), 1).unwrap();
    assert_eq!(get_message(&store, 1, "Str0ngPwd".to_string()), Err(not_found(1)));
    assert_eq!(
        get_message(&store, u64::MAX, "Str0ngPwd".to_string()),
        Err(not_found(u64::MAX))
    );
    assert_eq!(
        not_found(u64::MAX),
        Error::NotFound { msg: "A message with id=18446744073709551615 not found".to_string() }
    );
    assert_eq!(read(&store, 5, None, None).unwrap_err().kind(), ErrorKind::NotFound);
}

#[test]
fn read_with_wrong_key_is_unauthorized() {
    let mut store = MessageStore::init().unwrap();
    add_message(&mut store, payload("the content", "Str0ngPwd"), 1).unwrap();
    for key in ["", "str0ngpwd", "Str0ngPwd ", "Str0ngPw", "the content"] {
        let refused = get_message(&store, 0, key.to_string());
        assert_eq!(refused, Err(wrong_key()));
        let text = format!("{:?}", refused);
        assert!(!text.contains("the content"));
    }
}

#[test]
fn weak_key_is_invalid_input_and_consumes_no_identifier() {
    let mut store = MessageStore::init().unwrap();
    assert_eq!(
        add_message(&mut store, payload("abc", "short1"), 1),
        Err(Error::InvalidInput { msg: "Password validation failed".to_string() })
    );
    assert_eq!(store.peek_next_id(), 0);
    assert_eq!(_get_message(&store, &0), Ok(None));
    assert_eq!(add_message(&mut store, payload("abc", "Str0ngPwd"), 2).unwrap().id, 0);
}

#[test]
fn oversized_payload_is_invalid_input() {
    let mut store = MessageStore::init().unwrap();
    let room = 1024 - 21 - "Str0ngPwd".len();
    assert_eq!(
        add_message(&mut store, payload(&"m".repeat(room + 1), "Str0ngPwd"), 1),
        Err(Error::InvalidInput { msg: "The message does not fit into 1024 bytes".to_string() })
    );
    assert_eq!(store.peek_next_id(), 0);
    let created = add_message(&mut store, payload(&"m".repeat(room), "Str0ngPwd"), 1).unwrap();
    assert_eq!(created.to_bytes().unwrap().len(), 1024);
    assert_eq!(get_message(&store, 0, "Str0ngPwd".to_string()), Ok("m".repeat(room)));
}

#[test]
fn create_without_the_role_is_unauthorized() {
    let mut store = MessageStore::init().unwrap();
    let refused = create(&mut store, payload("abc", "Str0ngPwd"), Some(&roles(&["user"])), 1);
    assert_eq!(refused, Err(missing_role()));
    let refused = create(&mut store, payload("abc", "Str0ngPwd"), Some(&roles(&[])), 1);
    assert_eq!(refused, Err(missing_role()));
    assert_eq!(store.peek_next_id(), 0);
    for id in [0, 1, 2, 99, u64::MAX] {
        assert_eq!(read(&store, id, None, None).unwrap_err().kind(), ErrorKind::NotFound);
    }
}

#[test]
fn access_gate_comes_before_validation() {
    let mut store = MessageStore::init().unwrap();
    let refused = create(&mut store, payload("", "short1"), Some(&roles(&["user"])), 1);
    assert_eq!(refused, Err(missing_role()));
    let refused = create(&mut store, payload("", "short1"), Some(&roles(&["admin"])), 1);
    assert_eq!(refused.unwrap_err().kind(), ErrorKind::InvalidInput);
}

#[test]
fn create_with_the_role_succeeds() {
    let mut store = MessageStore::init().unwrap();
    let admin = roles(&["user", "admin"]);
    let created = create(&mut store, payload("abc", "Str0ngPwd"), Some(&admin), 9).unwrap();
    assert_eq!(created.id, 0);
    assert_eq!(created.created_at, 9);
    assert_eq!(read(&store, 0, None, Some(&admin)), Ok("abc".to_string()));
}

#[test]
fn privileged_read_asks_for_the_role() {
    let mut store = MessageStore::init().unwrap();
    add_message(&mut store, payload("abc", "Str0ngPwd"), 1).unwrap();
    let key = "Str0ngPwd".to_string();
    let wrong = "wrongkey".to_string();
    let user = roles(&["user"]);
    let admin = roles(&["admin"]);
    assert_eq!(read(&store, 0, Some(&key), Some(&user)), Err(missing_role()));
    assert_eq!(read(&store, 99, Some(&key), Some(&user)), Err(missing_role()));
    assert_eq!(read(&store, 0, Some(&key), Some(&admin)), Ok("abc".to_string()));
    assert_eq!(read(&store, 0, Some(&wrong), Some(&admin)), Err(wrong_key()));
    assert_eq!(read(&store, 99, Some(&wrong), Some(&admin)), Err(not_found(99)));
}

#[test]
fn read_changes_nothing() {
    let mut store = MessageStore::init().unwrap();
    add_message(&mut store, payload("abc", "Str0ngPwd"), 1).unwrap();
    let before = _get_message(&store, &0);
    for _ in 0..3 {
        let _ = get_message(&store, 0, "wrongkey".to_string());
        let _ = get_message(&store, 0, "Str0ngPwd".to_string());
        let _ = get_message(&store, 7, "Str0ngPwd".to_string());
    }
    assert_eq!(_get_message(&store, &0), before);
    assert_eq!(store.peek_next_id(), 1);
}

#[test]
fn error_kinds_name_the_variants() {
    assert_eq!(not_found(1).kind(), ErrorKind::NotFound);
    assert_eq!(wrong_key().kind(), ErrorKind::Unauthorized);
    assert_eq!(Error::InvalidInput { msg: String::new() }.kind(), ErrorKind::InvalidInput);
    assert_eq!(Error::CounterIncrementFailed.kind(), ErrorKind::CounterIncrementFailed);
    assert_eq!(Error::CorruptData { msg: String::new() }.kind(), ErrorKind::CorruptData);
}

#[test]
fn not_found_names_the_identifier_in_decimal() {
    assert_eq!(decimal(0), "0");
    assert_eq!(decimal(7), "7");
    assert_eq!(decimal(9), "9");
    assert_eq!(decimal(10), "10");
    assert_eq!(decimal(99), "99");
    assert_eq!(decimal(100), "100");
    assert_eq!(decimal(1234567890), "1234567890");
    assert_eq!(decimal(u64::MAX), "18446744073709551615");
    assert_eq!(
        Error::not_found(305),
        Error::NotFound { msg: "A message with id=305 not found".to_string() }
    );
}

#[test]
fn created_messages_survive_reopening() {
    let mut store = MessageStore::init().unwrap();
    let first = add_message(&mut store, payload("one", "Str0ngPwd"), 1).unwrap();
    let second = add_message(&mut store, payload("two", "An0therKey"), 2).unwrap();
    let mut store = store.reopen().unwrap();
    assert_eq!(_get_message(&store, &0), Ok(Some(first)));
    assert_eq!(_get_message(&store, &1), Ok(Some(second)));
    assert_eq!(get_message(&store, 1, "An0therKey".to_string()), Ok("two".to_string()));
    assert_eq!(get_message(&store, 1, "Str0ngPwd".to_string()), Err(wrong_key()));
    assert_eq!(add_message(&mut store, payload("three", "Str0ngPwd"), 3).unwrap().id, 2);
}

#[test]
fn created_messages_carry_their_identifier_and_no_update_time() {
    let mut store = MessageStore::init().unwrap();
    for expected in 0..20u64 {
        let created = add_message(&mut store, payload("abc", "Str0ngPwd"), expected).unwrap();
        assert_eq!(created.id, expected);
        for id in 0..=expected {
            let stored = _get_message(&store, &id).unwrap().unwrap();
            assert_eq!(stored.id, id);
            assert_eq!(stored.created_at, id);
            assert_eq!(stored.updated_at, None);
        }
        assert_eq!(_get_message(&store, &(expected + 1)), Ok(None));
    }
}
