use matrix_sdk_crypto::error::{CryptoStoreError, EventError, OlmError, OlmSessionError};
use matrix_sdk_crypto::olm::{
    classify, find_most_recent, first_step, next_step, select_session, Attempt, DecryptStep,
    Decryption, DeviceSessionManager, Established, MessageKind, OlmMessage, Rejections, Sealed,
    SessionHealth,
};
use matrix_sdk_crypto::session::{
    DeviceIdentity, DeviceSession, InboundGroupSession, OutboundGroupSession,
};
use matrix_sdk_crypto::store::{CryptoStore, MemoryStore, StoreState};

const OLM: &str = "m.olm.v1.curve25519-aes-sha2";

// A stand-in for the ratchet primitive: its state is a counter, a message
// carries the counter it was encrypted at, and a session decrypts only the
// message at its own counter.

fn counter_of(ratchet: &[u8]) -> u64 {
    let mut bytes = [0u8; 8];
    bytes.copy_from_slice(&ratchet[..8]);
    u64::from_be_bytes(bytes)
}

fn ratchet_at(counter: u64) -> Vec<u8> {
    counter.to_be_bytes().to_vec()
}

fn run_encrypt(ratchet: &[u8], message_type: u64, plaintext: &str) -> Sealed {
    let counter = counter_of(ratchet);
    Sealed {
        ratchet: ratchet_at(counter + 1),
        message_type,
        body: format!("{}|{}", counter, plaintext),
    }
}

fn run_decrypt(ratchet: &[u8], body: &str) -> Attempt {
    let counter = counter_of(ratchet);
    match body.split_once('|') {
        Some((at, plaintext)) if at == counter.to_string() => Attempt::Decrypted {
            ratchet: ratchet_at(counter + 1),
            plaintext: plaintext.to_string(),
        },
        Some(_) => Attempt::Rejected(OlmSessionError::BadMessageMac),
        None => Attempt::Rejected(OlmSessionError::BadMessageFormat),
    }
}

fn session(sender_key: &str, session_id: &str, counter: u64, last_use_time: u64) -> DeviceSession {
    DeviceSession {
        session_id: session_id.to_string(),
        sender_key: sender_key.to_string(),
        ratchet: ratchet_at(counter),
        creation_time: 1,
        last_use_time,
        generation: 0,
        failures: 0,
    }
}

fn message(sender_key: &str, message_type: u64, body: &str) -> OlmMessage {
    OlmMessage {
        algorithm: OLM.to_string(),
        sender_key: sender_key.to_string(),
        message_type,
        body: body.to_string(),
    }
}

fn manager(identity_key: &str, wedge_threshold: u32) -> DeviceSessionManager {
    DeviceSessionManager::new(identity_key.to_string(), wedge_threshold)
}

fn attempt_of(step: DecryptStep) -> (DeviceSession, Decryption) {
    match step {
        DecryptStep::Attempt { session, rest } => (session, rest),
        other => panic!("expected an attempt, got {:?}", other),
    }
}

// A store whose reads or writes can be made to fail.
struct FlakyStore {
    inner: MemoryStore,
    fail_reads: bool,
    fail_writes: bool,
}

fn down() -> CryptoStoreError {
    CryptoStoreError::Backend("backend is down".to_string())
}

impl CryptoStore for FlakyStore {
    // The two descriptions of a store exist for proofs only: nothing calls
    // them when the program runs.
    fn state(&self) -> StoreState {
        unreachable!()
    }

    fn infallible(&self) -> bool {
        unreachable!()
    }

    fn get_device_sessions(&self, sender_key: &str) -> Result<Vec<DeviceSession>, CryptoStoreError> {
        if self.fail_reads {
            return Err(down());
        }
        self.inner.get_device_sessions(sender_key)
    }

    fn get_device_session(
        &self,
        sender_key: &str,
        session_id: &str,
    ) -> Result<Option<DeviceSession>, CryptoStoreError> {
        if self.fail_reads {
            return Err(down());
        }
        self.inner.get_device_session(sender_key, session_id)
    }

    fn save_device_session(&mut self, session: &DeviceSession) -> Result<(), CryptoStoreError> {
        if self.fail_writes {
            return Err(down());
        }
        self.inner.save_device_session(session)
    }

    fn get_inbound_group_session(
        &self,
        room_id: &str,
        session_id: &str,
        sender_key: &str,
    ) -> Result<Option<InboundGroupSession>, CryptoStoreError> {
        self.inner.get_inbound_group_session(room_id, session_id, sender_key)
    }

    fn save_inbound_group_session(
        &mut self,
        session: &InboundGroupSession,
    ) -> Result<(), CryptoStoreError> {
        self.inner.save_inbound_group_session(session)
    }

    fn get_outbound_group_session(
        &self,
        room_id: &str,
    ) -> Result<Option<OutboundGroupSession>, CryptoStoreError> {
        self.inner.get_outbound_group_session(room_id)
    }

    fn save_outbound_group_session(
        &mut self,
        session: &OutboundGroupSession,
    ) -> Result<(), CryptoStoreError> {
        self.inner.save_outbound_group_session(session)
    }

    fn get_device(
        &self,
        user_id: &str,
        device_id: &str,
    ) -> Result<Option<DeviceIdentity>, CryptoStoreError> {
        self.inner.get_device(user_id, device_id)
    }

    fn save_device(&mut self, device: &DeviceIdentity) -> Result<(), CryptoStoreError> {
        self.inner.save_device(device)
    }
}

#[test]
fn classify_checks_algorithm_then_type() {
    assert_eq!(classify(&message("K", 0, "b")).unwrap(), MessageKind::PreKey);
    assert_eq!(classify(&message("K", 1, "b")).unwrap(), MessageKind::Normal);
    assert!(matches!(classify(&message("K", 2, "b")), Err(EventError::UnsupportedOlmType)));
    let mut other = message("K", 1, "b");
    other.algorithm = "m.megolm.v1.aes-sha2".to_string();
    assert!(matches!(classify(&other), Err(EventError::UnsupportedAlgorithm)));
    other.message_type = 9;
    assert!(matches!(classify(&other), Err(EventError::UnsupportedAlgorithm)));
}

#[test]
fn most_recent_session_is_the_first_of_those_used_last() {
    assert_eq!(find_most_recent(&vec![]), None);
    let sessions = vec![
        session("B", "S1", 0, 5),
        session("B", "S2", 0, 9),
        session("B", "S3", 0, 9),
        session("B", "S4", 0, 2),
    ];
    assert_eq!(find_most_recent(&sessions), Some(1));
    assert_eq!(select_session(&sessions).unwrap().session_id, "S2");
    assert!(matches!(select_session(&vec![]), Err(OlmError::MissingSession)));
}

#[test]
fn encrypt_without_a_session_fails_and_with_one_round_trips() {
    let alice = manager("ALICE", 3);
    let bob = manager("BOB", 3);
    let mut alice_store = MemoryStore::new();
    let mut bob_store = MemoryStore::new();

    // Alice has no session with Bob.
    assert!(matches!(
        alice.begin_encrypt(&alice_store, "BOB"),
        Err(OlmError::MissingSession)
    ));

    // A session is established out of band, and Alice encrypts "hello".
    alice_store.save_device_session(&session("BOB", "S1", 0, 10)).unwrap();
    let used = alice.begin_encrypt(&alice_store, "BOB").unwrap();
    assert_eq!(used, session("BOB", "S1", 0, 10));
    let sealed = run_encrypt(&used.ratchet, 0, "hello");
    let first = alice.finish_encrypt(&mut alice_store, used, Ok(sealed), 20).unwrap();
    assert_eq!(first, message("ALICE", 0, "0|hello"));
    let stored = alice_store.get_device_session("BOB", "S1").unwrap().unwrap();
    assert_eq!(
        stored,
        DeviceSession {
            ratchet: ratchet_at(1),
            last_use_time: 20,
            generation: 1,
            ..session("BOB", "S1", 0, 10)
        }
    );

    // Bob has no session yet: the message establishes one.
    let step = bob.begin_decrypt(&bob_store, &first);
    let sender_key = match step {
        DecryptStep::Establish { sender_key } => sender_key,
        other => panic!("expected a session to be established, got {:?}", other),
    };
    assert_eq!(sender_key, "ALICE");
    let established = Established {
        session_id: "S1".to_string(),
        ratchet: ratchet_at(1),
        plaintext: "hello".to_string(),
    };
    let plaintext = bob.after_establish(&mut bob_store, sender_key, Ok(established), 30).unwrap();
    assert_eq!(plaintext, "hello");
    assert_eq!(
        bob_store.get_device_sessions("ALICE").unwrap(),
        vec![DeviceSession {
            session_id: "S1".to_string(),
            sender_key: "ALICE".to_string(),
            ratchet: ratchet_at(1),
            creation_time: 30,
            last_use_time: 30,
            generation: 0,
            failures: 0,
        }]
    );

    // The next message goes through the session on both sides.
    let used = alice.begin_encrypt(&alice_store, "BOB").unwrap();
    let sealed = run_encrypt(&used.ratchet, 1, "again");
    let second = alice.finish_encrypt(&mut alice_store, used, Ok(sealed), 40).unwrap();
    assert_eq!(second, message("ALICE", 1, "1|again"));
    let (candidate, rest) = attempt_of(bob.begin_decrypt(&bob_store, &second));
    let attempt = run_decrypt(&candidate.ratchet, &second.body);
    let step = bob.after_attempt(&mut bob_store, candidate, rest, attempt, 50);
    assert!(matches!(step, DecryptStep::Done(Ok(ref plaintext)) if plaintext == "again"));
    let stored = bob_store.get_device_session("ALICE", "S1").unwrap().unwrap();
    assert_eq!(stored.generation, 1);
    assert_eq!(stored.ratchet, ratchet_at(2));
    assert_eq!(stored.last_use_time, 50);
}

#[test]
fn of_two_decryptions_from_one_copy_only_one_is_accepted() {
    let bob = manager("BOB", 3);
    let mut store = MemoryStore::new();
    store.save_device_session(&session("ALICE", "S1", 4, 10)).unwrap();

    let one = message("ALICE", 1, "4|one");
    let two = message("ALICE", 1, "4|two");
    let (first_copy, first_rest) = attempt_of(bob.begin_decrypt(&store, &one));
    let (second_copy, second_rest) = attempt_of(bob.begin_decrypt(&store, &two));
    let first_attempt = run_decrypt(&first_copy.ratchet, &one.body);
    let second_attempt = run_decrypt(&second_copy.ratchet, &two.body);
    assert!(matches!(first_attempt, Attempt::Decrypted { .. }));
    assert!(matches!(second_attempt, Attempt::Decrypted { .. }));

    let first = bob.after_attempt(&mut store, first_copy, first_rest, first_attempt, 20);
    assert!(matches!(first, DecryptStep::Done(Ok(ref plaintext)) if plaintext == "one"));
    let second = bob.after_attempt(&mut store, second_copy, second_rest, second_attempt, 21);
    assert!(matches!(
        second,
        DecryptStep::Done(Err(OlmError::Store(CryptoStoreError::Conflict)))
    ));

    // The store reflects exactly one advance.
    let stored = store.get_device_session("ALICE", "S1").unwrap().unwrap();
    assert_eq!(
        stored,
        DeviceSession {
            ratchet: ratchet_at(5),
            last_use_time: 20,
            generation: 1,
            ..session("ALICE", "S1", 4, 10)
        }
    );

    // Taken up again from the stored state, the second message is one that
    // the ratchet no longer supports.
    let (copy, rest) = attempt_of(bob.begin_decrypt(&store, &two));
    let attempt = run_decrypt(&copy.ratchet, &two.body);
    let step = bob.after_attempt(&mut store, copy, rest, attempt, 22);
    assert!(matches!(
        step,
        DecryptStep::Done(Err(OlmError::OlmSession(OlmSessionError::BadMessageMac)))
    ));
    let stored = store.get_device_session("ALICE", "S1").unwrap().unwrap();
    assert_eq!(stored.generation, 1);
    assert_eq!(stored.ratchet, ratchet_at(5));
    assert_eq!(stored.failures, 1);
}

#[test]
fn of_two_encryptions_from_one_copy_only_one_is_accepted() {
    let alice = manager("ALICE", 3);
    let mut store = MemoryStore::new();
    store.save_device_session(&session("BOB", "S1", 0, 10)).unwrap();
    let first_copy = alice.begin_encrypt(&store, "BOB").unwrap();
    let second_copy = alice.begin_encrypt(&store, "BOB").unwrap();
    let first = run_encrypt(&first_copy.ratchet, 1, "one");
    let second = run_encrypt(&second_copy.ratchet, 1, "two");
    assert!(alice.finish_encrypt(&mut store, first_copy, Ok(first), 11).is_ok());
    assert!(matches!(
        alice.finish_encrypt(&mut store, second_copy, Ok(second), 12),
        Err(OlmError::Store(CryptoStoreError::Conflict))
    ));
    let stored = store.get_device_session("BOB", "S1").unwrap().unwrap();
    assert_eq!(stored.generation, 1);
    assert_eq!(stored.ratchet, ratchet_at(1));
    assert_eq!(stored.last_use_time, 11);
}

#[test]
fn a_failed_encryption_writes_nothing() {
    let alice = manager("ALICE", 3);
    let mut store = MemoryStore::new();
    store.save_device_session(&session("BOB", "S1", 0, 10)).unwrap();
    let copy = alice.begin_encrypt(&store, "BOB").unwrap();
    assert!(matches!(
        alice.finish_encrypt(&mut store, copy, Err(OlmSessionError::NotEnoughRandom), 11),
        Err(OlmError::OlmSession(OlmSessionError::NotEnoughRandom))
    ));
    assert_eq!(
        store.get_device_session("BOB", "S1").unwrap(),
        Some(session("BOB", "S1", 0, 10))
    );
}

#[test]
fn sessions_are_tried_from_the_most_recently_used() {
    let bob = manager("BOB", 3);
    let mut store = MemoryStore::new();
    store.save_device_session(&session("ALICE", "OLD", 7, 5)).unwrap();
    store.save_device_session(&session("ALICE", "NEW", 3, 9)).unwrap();
    store.save_device_session(&session("ALICE", "MID", 1, 7)).unwrap();
    store.save_device_session(&session("CAROL", "OTHER", 7, 99)).unwrap();

    let encrypted = message("ALICE", 1, "7|for the old session");
    let (copy, rest) = attempt_of(bob.begin_decrypt(&store, &encrypted));
    assert_eq!(copy.session_id, "NEW");
    let attempt = run_decrypt(&copy.ratchet, &encrypted.body);
    let (copy, rest) = attempt_of(bob.after_attempt(&mut store, copy, rest, attempt, 20));
    assert_eq!(copy.session_id, "MID");
    let attempt = run_decrypt(&copy.ratchet, &encrypted.body);
    let (copy, rest) = attempt_of(bob.after_attempt(&mut store, copy, rest, attempt, 20));
    assert_eq!(copy.session_id, "OLD");
    assert!(rest.remaining.is_empty());
    let attempt = run_decrypt(&copy.ratchet, &encrypted.body);
    let step = bob.after_attempt(&mut store, copy, rest, attempt, 20);
    assert!(
        matches!(step, DecryptStep::Done(Ok(ref plaintext)) if plaintext == "for the old session")
    );

    // The sessions that rejected the message have it counted against them;
    // the one that decrypted it has advanced. Carol's session was not tried.
    let failures: Vec<(String, u32, u64)> = store
        .get_device_sessions("ALICE")
        .unwrap()
        .into_iter()
        .map(|s| (s.session_id, s.failures, s.generation))
        .collect();
    assert_eq!(
        failures,
        vec![
            ("OLD".to_string(), 0, 1),
            ("NEW".to_string(), 1, 0),
            ("MID".to_string(), 1, 0)
        ]
    );
    assert_eq!(
        store.get_device_sessions("CAROL").unwrap(),
        vec![session("CAROL", "OTHER", 7, 99)]
    );
}

#[test]
fn an_only_session_that_keeps_failing_is_wedged() {
    let bob = manager("BOB", 2);
    let mut store = MemoryStore::new();
    store.save_device_session(&session("ALICE", "S1", 4, 10)).unwrap();
    assert_eq!(bob.session_health(&store, "ALICE").unwrap(), SessionHealth::Healthy);
    assert_eq!(bob.session_health(&store, "NOBODY").unwrap(), SessionHealth::NoSession);

    let garbled = message("ALICE", 1, "9|lost");
    let (copy, rest) = attempt_of(bob.begin_decrypt(&store, &garbled));
    let attempt = run_decrypt(&copy.ratchet, &garbled.body);
    let step = bob.after_attempt(&mut store, copy, rest, attempt, 20);
    assert!(matches!(
        step,
        DecryptStep::Done(Err(OlmError::OlmSession(OlmSessionError::BadMessageMac)))
    ));
    assert_eq!(bob.session_health(&store, "ALICE").unwrap(), SessionHealth::Healthy);

    let (copy, rest) = attempt_of(bob.begin_decrypt(&store, &garbled));
    let attempt = run_decrypt(&copy.ratchet, &garbled.body);
    let step = bob.after_attempt(&mut store, copy, rest, attempt, 21);
    assert!(matches!(step, DecryptStep::Done(Err(OlmError::SessionWedged))));
    assert_eq!(bob.session_health(&store, "ALICE").unwrap(), SessionHealth::Wedged);

    // The session is not destroyed, and its ratchet has not moved.
    let stored = store.get_device_session("ALICE", "S1").unwrap().unwrap();
    assert_eq!(
        stored,
        DeviceSession { failures: 2, ..session("ALICE", "S1", 4, 10) }
    );

    // A message that it does decrypt clears the count.
    let good = message("ALICE", 1, "4|found");
    let (copy, rest) = attempt_of(bob.begin_decrypt(&store, &good));
    let attempt = run_decrypt(&copy.ratchet, &good.body);
    let step = bob.after_attempt(&mut store, copy, rest, attempt, 22);
    assert!(matches!(step, DecryptStep::Done(Ok(ref plaintext)) if plaintext == "found"));
    assert_eq!(bob.session_health(&store, "ALICE").unwrap(), SessionHealth::Healthy);
    assert_eq!(store.get_device_session("ALICE", "S1").unwrap().unwrap().failures, 0);
}

#[test]
fn a_device_is_healthy_while_one_session_is() {
    let bob = manager("BOB", 1);
    let worn = DeviceSession { failures: 3, ..session("ALICE", "S1", 0, 1) };
    let fine = session("ALICE", "S2", 0, 2);
    assert_eq!(bob.health(&vec![]), SessionHealth::NoSession);
    assert_eq!(bob.health(&vec![worn.clone()]), SessionHealth::Wedged);
    assert_eq!(bob.health(&vec![worn.clone(), fine]), SessionHealth::Healthy);
    assert_eq!(manager("BOB", 4).health(&vec![worn]), SessionHealth::Healthy);
}

#[test]
fn a_message_of_an_unsupported_kind_is_not_tried() {
    let bob = manager("BOB", 3);
    let mut store = MemoryStore::new();
    store.save_device_session(&session("ALICE", "S1", 4, 10)).unwrap();
    let step = bob.begin_decrypt(&store, &message("ALICE", 5, "4|x"));
    assert!(matches!(
        step,
        DecryptStep::Done(Err(OlmError::EventError(EventError::UnsupportedOlmType)))
    ));
    let mut other = message("ALICE", 1, "4|x");
    other.algorithm = "m.unknown".to_string();
    let step = bob.begin_decrypt(&store, &other);
    assert!(matches!(
        step,
        DecryptStep::Done(Err(OlmError::EventError(EventError::UnsupportedAlgorithm)))
    ));
}

#[test]
fn a_message_from_a_device_without_session() {
    let bob = manager("BOB", 3);
    let store = MemoryStore::new();
    // One that establishes a session has one created.
    let step = bob.begin_decrypt(&store, &message("ALICE", 0, "0|hi"));
    assert!(matches!(step, DecryptStep::Establish { ref sender_key } if sender_key == "ALICE"));
    // Any other finds no session.
    let step = bob.begin_decrypt(&store, &message("ALICE", 1, "0|hi"));
    assert!(matches!(step, DecryptStep::Done(Err(OlmError::MissingSession))));
}

#[test]
fn a_message_that_establishes_a_session_passes_over_those_it_does_not_match() {
    let bob = manager("BOB", 3);
    let mut store = MemoryStore::new();
    store.save_device_session(&session("ALICE", "S1", 4, 10)).unwrap();
    let pre_key = message("ALICE", 0, "0|hello");
    let (copy, rest) = attempt_of(bob.begin_decrypt(&store, &pre_key));
    let step = bob.after_attempt(&mut store, copy, rest, Attempt::NotMatching, 20);
    assert!(matches!(step, DecryptStep::Establish { ref sender_key } if sender_key == "ALICE"));
    // Nothing was counted against the session.
    assert_eq!(
        store.get_device_session("ALICE", "S1").unwrap(),
        Some(session("ALICE", "S1", 4, 10))
    );
    // But a session that matches and then fails is not replaced by a new one.
    let (copy, rest) = attempt_of(bob.begin_decrypt(&store, &pre_key));
    let step = bob.after_attempt(
        &mut store,
        copy,
        rest,
        Attempt::Rejected(OlmSessionError::BadMessageKeyId),
        21,
    );
    assert!(matches!(
        step,
        DecryptStep::Done(Err(OlmError::OlmSession(OlmSessionError::BadMessageKeyId)))
    ));
    assert_eq!(store.get_device_session("ALICE", "S1").unwrap().unwrap().failures, 1);
}

#[test]
fn establishing_a_session() {
    let bob = manager("BOB", 3);
    let mut store = MemoryStore::new();
    // A failure of the primitive is reported and nothing is saved.
    assert!(matches!(
        bob.after_establish(
            &mut store,
            "ALICE".to_string(),
            Err(OlmSessionError::BadMessageKeyId),
            5
        ),
        Err(OlmError::OlmSession(OlmSessionError::BadMessageKeyId))
    ));
    assert_eq!(store.get_device_sessions("ALICE").unwrap(), vec![]);
    // A session that is held already is not written over.
    store.save_device_session(&session("ALICE", "S1", 4, 10)).unwrap();
    let established = Established {
        session_id: "S1".to_string(),
        ratchet: ratchet_at(0),
        plaintext: "hello".to_string(),
    };
    assert!(matches!(
        bob.after_establish(&mut store, "ALICE".to_string(), Ok(established), 6),
        Err(OlmError::Store(CryptoStoreError::Conflict))
    ));
    assert_eq!(
        store.get_device_sessions("ALICE").unwrap(),
        vec![session("ALICE", "S1", 4, 10)]
    );
}

#[test]
fn a_failing_store_fails_the_operation_and_nothing_is_written() {
    let bob = manager("BOB", 3);
    let mut inner = MemoryStore::new();
    inner.save_device_session(&session("ALICE", "S1", 4, 10)).unwrap();
    let mut store = FlakyStore { inner, fail_reads: false, fail_writes: true };

    let encrypted = message("ALICE", 1, "4|secret");
    let (copy, rest) = attempt_of(bob.begin_decrypt(&store, &encrypted));
    let attempt = run_decrypt(&copy.ratchet, &encrypted.body);
    let step = bob.after_attempt(&mut store, copy, rest, attempt, 20);
    // The plaintext is not handed out, since the advance was not written.
    assert!(matches!(
        step,
        DecryptStep::Done(Err(OlmError::Store(CryptoStoreError::Backend(_))))
    ));
    assert_eq!(
        store.inner.get_device_session("ALICE", "S1").unwrap(),
        Some(session("ALICE", "S1", 4, 10))
    );

    let copy = bob.begin_encrypt(&store, "ALICE").unwrap();
    let sealed = run_encrypt(&copy.ratchet, 1, "x");
    assert!(matches!(
        bob.finish_encrypt(&mut store, copy, Ok(sealed), 21),
        Err(OlmError::Store(CryptoStoreError::Backend(_)))
    ));
    let established = Established {
        session_id: "S9".to_string(),
        ratchet: ratchet_at(0),
        plaintext: "hello".to_string(),
    };
    assert!(matches!(
        bob.after_establish(&mut store, "ALICE".to_string(), Ok(established), 22),
        Err(OlmError::Store(CryptoStoreError::Backend(_)))
    ));
    assert_eq!(
        store.inner.get_device_sessions("ALICE").unwrap(),
        vec![session("ALICE", "S1", 4, 10)]
    );

    store.fail_writes = false;
    store.fail_reads = true;
    assert!(matches!(
        bob.begin_decrypt(&store, &encrypted),
        DecryptStep::Done(Err(OlmError::Store(CryptoStoreError::Backend(_))))
    ));
    assert!(matches!(
        bob.begin_encrypt(&store, "ALICE"),
        Err(OlmError::Store(CryptoStoreError::Backend(_)))
    ));
    assert!(matches!(
        bob.session_health(&store, "ALICE"),
        Err(OlmError::Store(CryptoStoreError::Backend(_)))
    ));
}

#[test]
fn judgement_of_an_attempt() {
    let bob = manager("BOB", 2);
    let copy = session("ALICE", "S1", 4, 10);
    let rest = || Decryption {
        sender_key: "ALICE".to_string(),
        pre_key: false,
        remaining: vec![],
        rejections: None,
    };
    let decrypted = || Attempt::Decrypted { ratchet: ratchet_at(5), plaintext: "p".to_string() };

    // The stored session is gone, or at another generation: a conflict.
    let (write, step) = bob.judge(copy.clone(), rest(), decrypted(), None, 20);
    assert_eq!(write, None);
    assert!(matches!(
        step,
        DecryptStep::Done(Err(OlmError::Store(CryptoStoreError::Conflict)))
    ));
    let moved = DeviceSession { generation: 3, ..copy.clone() };
    let (write, step) = bob.judge(copy.clone(), rest(), decrypted(), Some(moved), 20);
    assert_eq!(write, None);
    assert!(matches!(
        step,
        DecryptStep::Done(Err(OlmError::Store(CryptoStoreError::Conflict)))
    ));

    // The generations are used up: the session has to be replaced.
    let last = DeviceSession { generation: u64::MAX, ..copy.clone() };
    let (write, step) = bob.judge(last.clone(), rest(), decrypted(), Some(last), 20);
    assert_eq!(write, None);
    assert!(matches!(step, DecryptStep::Done(Err(OlmError::SessionWedged))));

    // The time of last use never goes back, and the failures are cleared.
    let stored = DeviceSession { last_use_time: 30, failures: 1, ..copy.clone() };
    let (write, step) = bob.judge(copy.clone(), rest(), decrypted(), Some(stored), 20);
    assert_eq!(
        write,
        Some(DeviceSession {
            ratchet: ratchet_at(5),
            last_use_time: 30,
            generation: 1,
            failures: 0,
            ..copy.clone()
        })
    );
    assert!(matches!(step, DecryptStep::Done(Ok(ref p)) if p == "p"));

    // A rejection is counted up to the largest count, and a session that
    // failed less often than tolerated keeps the device from being wedged.
    let worn = DeviceSession { failures: u32::MAX, ..copy.clone() };
    let earlier = Decryption {
        rejections: Some(Rejections { last: OlmSessionError::Unknown, all_wedged: false }),
        ..rest()
    };
    let (write, step) = bob.judge(
        copy.clone(),
        earlier,
        Attempt::Rejected(OlmSessionError::BadMessageMac),
        Some(worn.clone()),
        20,
    );
    assert_eq!(write, Some(worn));
    assert!(matches!(
        step,
        DecryptStep::Done(Err(OlmError::OlmSession(OlmSessionError::BadMessageMac)))
    ));
}

#[test]
fn steps_of_a_decryption() {
    let sessions = vec![session("ALICE", "S1", 0, 3), session("ALICE", "S2", 0, 8)];
    let step = first_step(&message("ALICE", 1, "b"), sessions);
    let (copy, rest) = attempt_of(step);
    assert_eq!(copy, session("ALICE", "S2", 0, 8));
    assert_eq!(
        rest,
        Decryption {
            sender_key: "ALICE".to_string(),
            pre_key: false,
            remaining: vec![session("ALICE", "S1", 0, 3)],
            rejections: None,
        }
    );
    let wedged = Decryption {
        sender_key: "ALICE".to_string(),
        pre_key: true,
        remaining: vec![],
        rejections: Some(Rejections { last: OlmSessionError::BadMessageMac, all_wedged: true }),
    };
    assert!(matches!(next_step(wedged), DecryptStep::Done(Err(OlmError::SessionWedged))));
}
