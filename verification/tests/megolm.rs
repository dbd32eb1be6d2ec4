use matrix_sdk_crypto::error::{
    CryptoStoreError, EventError, MegolmError, OlmGroupSessionError,
};
use matrix_sdk_crypto::megolm::{
    holds_name, pending_recipients, read_payload, FreshGroupSession, GroupMessage, GroupSealed,
    GroupSessionManager, Opened,
};
use matrix_sdk_crypto::session::{DeviceIdentity, InboundGroupSession, OutboundGroupSession};
use matrix_sdk_crypto::store::{CryptoStore, MemoryStore};

const MEGOLM: &str = "m.megolm.v1.aes-sha2";

fn fresh(session_id: &str) -> FreshGroupSession {
    FreshGroupSession { session_id: session_id.to_string(), ratchet: vec![0] }
}

fn alice() -> DeviceIdentity {
    DeviceIdentity {
        user_id: "@alice:h".to_string(),
        device_id: "PHONE".to_string(),
        identity_key: "ALICE_CURVE".to_string(),
        signing_key: "ALICE_ED".to_string(),
        verified: true,
    }
}

fn inbound(session_id: &str, first_known_index: u32) -> InboundGroupSession {
    InboundGroupSession {
        room_id: "!room".to_string(),
        session_id: session_id.to_string(),
        sender_key: "ALICE_CURVE".to_string(),
        signing_key: "ALICE_ED".to_string(),
        ratchet: vec![first_known_index as u8],
        first_known_index,
    }
}

fn message(session_id: &str, ciphertext: &str) -> GroupMessage {
    GroupMessage {
        algorithm: MEGOLM.to_string(),
        session_id: session_id.to_string(),
        ciphertext: ciphertext.to_string(),
    }
}

fn opened(message_index: u32, plaintext: &str) -> Opened {
    Opened {
        plaintext: plaintext.to_string(),
        message_index,
        sender_user: "@alice:h".to_string(),
        sender_device: "PHONE".to_string(),
    }
}

// A stand-in for the group ratchet: its state is one byte that counts the
// messages, and a ciphertext carries the index it was encrypted at.
fn run_encrypt(session: &OutboundGroupSession, plaintext: &str) -> GroupSealed {
    GroupSealed {
        ratchet: vec![session.ratchet[0] + 1],
        ciphertext: format!("{}|{}", session.message_index, plaintext),
    }
}

fn names(list: &[&str]) -> Vec<String> {
    list.iter().map(|name| name.to_string()).collect()
}

#[test]
fn encrypting_needs_an_outbound_session() {
    let manager = GroupSessionManager::new();
    let mut store = MemoryStore::new();
    assert!(matches!(manager.begin_encrypt(&store, "!room"), Err(MegolmError::MissingSession)));

    let created = manager.create_outbound(&mut store, "!room".to_string(), fresh("G1"), 100).unwrap();
    assert_eq!(
        created,
        OutboundGroupSession {
            room_id: "!room".to_string(),
            session_id: "G1".to_string(),
            ratchet: vec![0],
            message_index: 0,
            creation_time: 100,
            shared_with: vec![],
        }
    );
    assert_eq!(store.get_outbound_group_session("!room").unwrap(), Some(created.clone()));
    assert!(matches!(manager.begin_encrypt(&store, "!other"), Err(MegolmError::MissingSession)));

    let used = manager.begin_encrypt(&store, "!room").unwrap();
    assert_eq!(used, created);
    let sealed = run_encrypt(&used, "hi");
    let sent = manager.finish_encrypt(&mut store, &used, Ok(sealed)).unwrap();
    assert_eq!(sent, message("G1", "0|hi"));
    // The next index is in the store before the message is returned.
    let stored = store.get_outbound_group_session("!room").unwrap().unwrap();
    assert_eq!(stored.message_index, 1);
    assert_eq!(stored.ratchet, vec![1]);

    let used = manager.begin_encrypt(&store, "!room").unwrap();
    let sealed = run_encrypt(&used, "there");
    let sent = manager.finish_encrypt(&mut store, &used, Ok(sealed)).unwrap();
    assert_eq!(sent, message("G1", "1|there"));
    assert_eq!(store.get_outbound_group_session("!room").unwrap().unwrap().message_index, 2);
}

#[test]
fn creating_keeps_the_session_that_a_room_has() {
    let manager = GroupSessionManager::new();
    let mut store = MemoryStore::new();
    let first = manager.create_outbound(&mut store, "!room".to_string(), fresh("G1"), 100).unwrap();
    let again = manager.create_outbound(&mut store, "!room".to_string(), fresh("G2"), 200).unwrap();
    assert_eq!(again, first);
    assert_eq!(store.get_outbound_group_session("!room").unwrap(), Some(first));
}

#[test]
fn rotating_gives_messages_another_session_id() {
    let manager = GroupSessionManager::new();
    let mut store = MemoryStore::new();
    // Without a session there is nothing to rotate.
    assert!(matches!(
        manager.rotate_outbound(&mut store, "!room".to_string(), fresh("G1"), 1),
        Err(MegolmError::MissingSession)
    ));
    manager.create_outbound(&mut store, "!room".to_string(), fresh("G1"), 100).unwrap();
    manager.receive_session(&mut store, &inbound("G1", 0)).unwrap();
    manager.mark_shared(&mut store, "!room", &"G1".to_string(), &"BOB".to_string()).unwrap();
    let used = manager.begin_encrypt(&store, "!room").unwrap();
    let sealed = run_encrypt(&used, "before");
    let before = manager.finish_encrypt(&mut store, &used, Ok(sealed)).unwrap();
    assert_eq!(before.session_id, "G1");

    // Key material of the session that is held is refused.
    assert!(matches!(
        manager.rotate_outbound(&mut store, "!room".to_string(), fresh("G1"), 150),
        Err(MegolmError::OlmGroupSession(OlmGroupSessionError::BadSessionKey))
    ));
    assert_eq!(store.get_outbound_group_session("!room").unwrap().unwrap().message_index, 1);

    let rotated = manager.rotate_outbound(&mut store, "!room".to_string(), fresh("G2"), 200).unwrap();
    assert_eq!(
        rotated,
        OutboundGroupSession {
            room_id: "!room".to_string(),
            session_id: "G2".to_string(),
            ratchet: vec![0],
            message_index: 0,
            creation_time: 200,
            shared_with: vec![],
        }
    );
    let used = manager.begin_encrypt(&store, "!room").unwrap();
    let sealed = run_encrypt(&used, "after");
    let after = manager.finish_encrypt(&mut store, &used, Ok(sealed)).unwrap();
    assert_eq!(after.session_id, "G2");
    assert_ne!(after.session_id, before.session_id);

    // What the session before has encrypted can still be decrypted.
    let session = manager.begin_decrypt(&store, "!room", &alice(), &before).unwrap();
    assert_eq!(session, inbound("G1", 0));
    assert_eq!(
        manager.deliver(&session, &alice(), Ok(opened(0, "before"))).unwrap(),
        "before"
    );
}

#[test]
fn an_encryption_from_a_copy_that_is_out_of_date_is_refused() {
    let manager = GroupSessionManager::new();
    let mut store = MemoryStore::new();
    manager.create_outbound(&mut store, "!room".to_string(), fresh("G1"), 100).unwrap();
    let one = manager.begin_encrypt(&store, "!room").unwrap();
    let two = manager.begin_encrypt(&store, "!room").unwrap();
    assert!(manager.finish_encrypt(&mut store, &one, Ok(run_encrypt(&one, "one"))).is_ok());
    assert!(matches!(
        manager.finish_encrypt(&mut store, &two, Ok(run_encrypt(&two, "two"))),
        Err(MegolmError::Store(CryptoStoreError::Conflict))
    ));
    assert_eq!(store.get_outbound_group_session("!room").unwrap().unwrap().message_index, 1);

    // Nor is one that was computed before a rotation.
    let stale = manager.begin_encrypt(&store, "!room").unwrap();
    manager.rotate_outbound(&mut store, "!room".to_string(), fresh("G2"), 200).unwrap();
    assert!(matches!(
        manager.finish_encrypt(&mut store, &stale, Ok(run_encrypt(&stale, "late"))),
        Err(MegolmError::Store(CryptoStoreError::Conflict))
    ));
    let stored = store.get_outbound_group_session("!room").unwrap().unwrap();
    assert_eq!(stored.session_id, "G2");
    assert_eq!(stored.message_index, 0);

    // A failure of the primitive is reported, and nothing is written.
    let used = manager.begin_encrypt(&store, "!room").unwrap();
    assert!(matches!(
        manager.finish_encrypt(&mut store, &used, Err(OlmGroupSessionError::OutputBufferTooSmall)),
        Err(MegolmError::OlmGroupSession(OlmGroupSessionError::OutputBufferTooSmall))
    ));
    assert_eq!(store.get_outbound_group_session("!room").unwrap().unwrap().message_index, 0);
}

#[test]
fn a_session_whose_indices_are_used_up_encrypts_nothing_more() {
    let manager = GroupSessionManager::new();
    let last = OutboundGroupSession {
        room_id: "!room".to_string(),
        session_id: "G1".to_string(),
        ratchet: vec![0],
        message_index: u32::MAX,
        creation_time: 1,
        shared_with: vec![],
    };
    let sealed = GroupSealed { ratchet: vec![1], ciphertext: "c".to_string() };
    let (write, result) = manager.seal(&last, Ok(sealed), Some(last.clone()));
    assert_eq!(write, None);
    assert!(matches!(result, Err(MegolmError::MissingSession)));
    // The session has gone from the store.
    let sealed = GroupSealed { ratchet: vec![1], ciphertext: "c".to_string() };
    let (write, result) = manager.seal(&last, Ok(sealed), None);
    assert_eq!(write, None);
    assert!(matches!(result, Err(MegolmError::MissingSession)));
}

#[test]
fn distribution_covers_each_device_once() {
    let manager = GroupSessionManager::new();
    let mut store = MemoryStore::new();
    manager.create_outbound(&mut store, "!room".to_string(), fresh("G1"), 100).unwrap();
    let session_id = "G1".to_string();
    manager.mark_shared(&mut store, "!room", &session_id, &"BOB".to_string()).unwrap();

    let session = store.get_outbound_group_session("!room").unwrap().unwrap();
    assert_eq!(session.shared_with, names(&["BOB"]));
    let targets = names(&["CAROL", "BOB", "DAVE", "CAROL"]);
    assert_eq!(pending_recipients(&session, &targets), names(&["CAROL", "DAVE"]));
    assert_eq!(pending_recipients(&session, &vec![]), names(&[]));

    for device in pending_recipients(&session, &targets) {
        manager.mark_shared(&mut store, "!room", &session_id, &device).unwrap();
    }
    let session = store.get_outbound_group_session("!room").unwrap().unwrap();
    assert_eq!(session.shared_with, names(&["BOB", "CAROL", "DAVE"]));
    assert_eq!(pending_recipients(&session, &targets), names(&[]));

    // Marking a device again changes nothing.
    manager.mark_shared(&mut store, "!room", &session_id, &"CAROL".to_string()).unwrap();
    assert_eq!(store.get_outbound_group_session("!room").unwrap(), Some(session.clone()));
    assert!(holds_name(&session.shared_with, &"DAVE".to_string()));
    assert!(!holds_name(&session.shared_with, &"ERIN".to_string()));

    // A session that has been rotated away is no longer marked.
    assert!(matches!(
        manager.mark_shared(&mut store, "!room", &"G0".to_string(), &"ERIN".to_string()),
        Err(MegolmError::Store(CryptoStoreError::Conflict))
    ));
    assert!(matches!(
        manager.mark_shared(&mut store, "!nowhere", &session_id, &"ERIN".to_string()),
        Err(MegolmError::MissingSession)
    ));
    // Encrypting keeps the marks.
    let used = manager.begin_encrypt(&store, "!room").unwrap();
    manager.finish_encrypt(&mut store, &used, Ok(run_encrypt(&used, "x"))).unwrap();
    assert_eq!(
        store.get_outbound_group_session("!room").unwrap().unwrap().shared_with,
        names(&["BOB", "CAROL", "DAVE"])
    );
}

#[test]
fn a_message_waits_for_its_session() {
    let manager = GroupSessionManager::new();
    let mut store = MemoryStore::new();
    // The room has an outbound session, but nothing was received from Alice.
    manager.create_outbound(&mut store, "!room".to_string(), fresh("OURS"), 100).unwrap();
    let buffered = message("G1", "3|hello");
    assert!(matches!(
        manager.begin_decrypt(&store, "!room", &alice(), &buffered),
        Err(MegolmError::MissingSession)
    ));
    // The key arrives and is stored; the same message is then decrypted.
    assert_eq!(manager.receive_session(&mut store, &inbound("G1", 2)).unwrap(), true);
    let session = manager.begin_decrypt(&store, "!room", &alice(), &buffered).unwrap();
    assert_eq!(session, inbound("G1", 2));
    assert_eq!(
        manager.deliver(&session, &alice(), Ok(opened(3, "hello"))).unwrap(),
        "hello"
    );
    // A session is kept by room, session and sender.
    assert!(matches!(
        manager.begin_decrypt(&store, "!other", &alice(), &buffered),
        Err(MegolmError::MissingSession)
    ));
    assert!(matches!(
        manager.begin_decrypt(&store, "!room", &alice(), &message("G2", "3|hello")),
        Err(MegolmError::MissingSession)
    ));
    let bob = DeviceIdentity { identity_key: "BOB_CURVE".to_string(), ..alice() };
    assert!(matches!(
        manager.begin_decrypt(&store, "!room", &bob, &buffered),
        Err(MegolmError::MissingSession)
    ));
}

#[test]
fn an_inbound_session_decrypts_from_its_earliest_index_on() {
    let manager = GroupSessionManager::new();
    let session = inbound("G1", 5);
    assert_eq!(manager.deliver(&session, &alice(), Ok(opened(5, "five"))).unwrap(), "five");
    assert_eq!(manager.deliver(&session, &alice(), Ok(opened(6, "six"))).unwrap(), "six");
    // A message that was decrypted before is decrypted again.
    assert_eq!(manager.deliver(&session, &alice(), Ok(opened(5, "five"))).unwrap(), "five");
    assert_eq!(
        manager.deliver(&session, &alice(), Ok(opened(u32::MAX, "last"))).unwrap(),
        "last"
    );
    // One from before the earliest index is refused.
    assert!(matches!(
        manager.deliver(&session, &alice(), Ok(opened(4, "four"))),
        Err(MegolmError::OlmGroupSession(OlmGroupSessionError::UnknownMessageIndex))
    ));
    assert!(matches!(
        manager.deliver(&session, &alice(), Err(OlmGroupSessionError::BadMessageMac)),
        Err(MegolmError::OlmGroupSession(OlmGroupSessionError::BadMessageMac))
    ));
    assert_eq!(session, inbound("G1", 5));
}

#[test]
fn sender_and_keys_have_to_match() {
    let manager = GroupSessionManager::new();
    let mut store = MemoryStore::new();
    manager.receive_session(&mut store, &inbound("G1", 0)).unwrap();
    let encrypted = message("G1", "0|hello");

    let forged = DeviceIdentity { signing_key: "OTHER_ED".to_string(), ..alice() };
    assert!(matches!(
        manager.begin_decrypt(&store, "!room", &forged, &encrypted),
        Err(MegolmError::EventError(EventError::MissmatchedKeys))
    ));
    let mut other = message("G1", "0|hello");
    other.algorithm = "m.olm.v1.curve25519-aes-sha2".to_string();
    assert!(matches!(
        manager.begin_decrypt(&store, "!room", &alice(), &other),
        Err(MegolmError::EventError(EventError::UnsupportedAlgorithm))
    ));

    let session = manager.begin_decrypt(&store, "!room", &alice(), &encrypted).unwrap();
    let relayed = Opened { sender_user: "@mallory:h".to_string(), ..opened(0, "hello") };
    assert!(matches!(
        manager.deliver(&session, &alice(), Ok(relayed)),
        Err(MegolmError::EventError(EventError::MissmatchedSender))
    ));
    let relayed = Opened { sender_device: "LAPTOP".to_string(), ..opened(0, "hello") };
    assert!(matches!(
        manager.deliver(&session, &alice(), Ok(relayed)),
        Err(MegolmError::EventError(EventError::MissmatchedSender))
    ));
    // A stale index is reported before a sender that does not match.
    let session = inbound("G1", 3);
    let relayed = Opened { sender_user: "@mallory:h".to_string(), ..opened(1, "hello") };
    assert!(matches!(
        manager.deliver(&session, &alice(), Ok(relayed)),
        Err(MegolmError::OlmGroupSession(OlmGroupSessionError::UnknownMessageIndex))
    ));
}

#[test]
fn a_received_session_never_replaces_one_that_decrypts_more() {
    let manager = GroupSessionManager::new();
    let mut store = MemoryStore::new();
    assert_eq!(manager.receive_session(&mut store, &inbound("G1", 5)).unwrap(), true);
    assert_eq!(manager.receive_session(&mut store, &inbound("G1", 7)).unwrap(), false);
    assert_eq!(manager.receive_session(&mut store, &inbound("G1", 5)).unwrap(), false);
    assert_eq!(
        store.get_inbound_group_session("!room", "G1", "ALICE_CURVE").unwrap(),
        Some(inbound("G1", 5))
    );
    assert_eq!(manager.receive_session(&mut store, &inbound("G1", 2)).unwrap(), true);
    assert_eq!(
        store.get_inbound_group_session("!room", "G1", "ALICE_CURVE").unwrap(),
        Some(inbound("G1", 2))
    );
    // Nor one that is bound to another signing key.
    let rebound = InboundGroupSession { signing_key: "OTHER_ED".to_string(), ..inbound("G1", 0) };
    assert_eq!(manager.receive_session(&mut store, &rebound).unwrap(), false);
    assert_eq!(
        store.get_inbound_group_session("!room", "G1", "ALICE_CURVE").unwrap(),
        Some(inbound("G1", 2))
    );
    assert!(manager.accepts(&inbound("G1", 9), &None));
}

const PAYLOAD: &str =
    r#"{"type":"m.room.message","sender":"@alice:h","sender_device":"PHONE","content":{"body":"hi","n":1.5}}"#;

#[test]
fn a_payload_names_its_sender() {
    assert_eq!(
        read_payload(PAYLOAD.to_string(), 7).unwrap(),
        Opened {
            plaintext: PAYLOAD.to_string(),
            message_index: 7,
            sender_user: "@alice:h".to_string(),
            sender_device: "PHONE".to_string(),
        }
    );
    // Of two members with one name the later one counts.
    let twice = r#"{"sender":"@mallory:h","sender_device":"PHONE","sender":"@alice:h"}"#;
    assert_eq!(read_payload(twice.to_string(), 0).unwrap().sender_user, "@alice:h");
}

#[test]
fn a_payload_that_cannot_be_read_is_refused() {
    for text in ["", "{", "not json", r#"{"sender":"@alice:h","sender_device":"PHONE"} x"#] {
        assert!(matches!(read_payload(text.to_string(), 0), Err(MegolmError::JsonError(_))));
    }
    let missing = |text: &str, name: &str| match read_payload(text.to_string(), 0) {
        Err(MegolmError::EventError(EventError::MissingField(field))) => field == name,
        _ => false,
    };
    assert!(missing(r#"{"sender_device":"PHONE"}"#, "sender"));
    assert!(missing(r#"{"sender":"@alice:h"}"#, "sender_device"));
    assert!(missing(r#"{"sender":7,"sender_device":"PHONE"}"#, "sender"));
    assert!(missing(r#"{"sender":"@alice:h","sender_device":null}"#, "sender_device"));
    assert!(missing(r#"["sender","sender_device"]"#, "sender"));
    assert!(missing(r#""sender""#, "sender"));
    assert!(missing(r#"{}"#, "sender"));
}

#[test]
fn a_decrypted_message_is_read_and_then_judged() {
    let manager = GroupSessionManager::new();
    let session = inbound("G1", 2);
    assert_eq!(
        manager.finish_decrypt(&session, &alice(), Ok((PAYLOAD.to_string(), 2))).unwrap(),
        PAYLOAD
    );
    assert!(matches!(
        manager.finish_decrypt(&session, &alice(), Ok((PAYLOAD.to_string(), 1))),
        Err(MegolmError::OlmGroupSession(OlmGroupSessionError::UnknownMessageIndex))
    ));
    assert!(matches!(
        manager.finish_decrypt(&session, &alice(), Ok(("garbage".to_string(), 2))),
        Err(MegolmError::JsonError(_))
    ));
    assert!(matches!(
        manager.finish_decrypt(&session, &alice(), Ok((r#"{"sender":"@alice:h"}"#.to_string(), 2))),
        Err(MegolmError::EventError(EventError::MissingField(_)))
    ));
    let bob = DeviceIdentity { user_id: "@bob:h".to_string(), ..alice() };
    assert!(matches!(
        manager.finish_decrypt(&session, &bob, Ok((PAYLOAD.to_string(), 2))),
        Err(MegolmError::EventError(EventError::MissmatchedSender))
    ));
    assert!(matches!(
        manager.finish_decrypt(&session, &alice(), Err(OlmGroupSessionError::BadMessageFormat)),
        Err(MegolmError::OlmGroupSession(OlmGroupSessionError::BadMessageFormat))
    ));
}
