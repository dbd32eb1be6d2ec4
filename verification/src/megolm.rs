//! The manager of the group sessions of rooms.
//!
//! As with pairwise sessions, the group ratchet is a primitive that the
//! caller runs: the manager reads the store and hands out a copy of the
//! session, the caller runs the primitive and reports, and the manager
//! decides what is written and what is returned. An outbound session is
//! replaced only by an explicit rotation, and an inbound session is never
//! replaced by one that can decrypt less.

use vstd::prelude::*;
use crate::error::{
    CryptoStoreError, CryptoStoreErrorView, EventError, EventErrorView, MegolmError,
    MegolmErrorView, OlmGroupSessionError, megolm_store_failure,
};
use crate::json::JsonModel;
use crate::session::{
    DeviceIdentity, DeviceIdentityView, InboundGroupSession, InboundGroupSessionView,
    OutboundGroupSession, OutboundGroupSessionView, names_of, optional_view, result_view,
};
use crate::signature::{member, serde_model};
use crate::store::{
    CryptoStore, StoreState, is_inbound_group_session, is_outbound_group_session,
    lemma_lookup_saved,
};

verus! {

/// The algorithm that room messages are encrypted with.
pub open spec fn megolm_algorithm() -> Seq<char> {
    "m.megolm.v1.aes-sha2"@
}

/// An encrypted room message.
#[derive(Debug, PartialEq, Eq)]
pub struct GroupMessage {
    /// The algorithm that the message says it was encrypted with.
    pub algorithm: String,
    /// The session that the message was encrypted under.
    pub session_id: String,
    pub ciphertext: String,
}

/// A [`GroupMessage`], its texts taken as sequences of characters.
pub struct GroupMessageView {
    pub algorithm: Seq<char>,
    pub session_id: Seq<char>,
    pub ciphertext: Seq<char>,
}

impl View for GroupMessage {
    type V = GroupMessageView;

    open spec fn view(&self) -> GroupMessageView {
        GroupMessageView {
            algorithm: self.algorithm@,
            session_id: self.session_id@,
            ciphertext: self.ciphertext@,
        }
    }
}

/// Key material that the primitive has made for a new outbound session.
#[derive(Debug, PartialEq, Eq)]
pub struct FreshGroupSession {
    pub session_id: String,
    /// The ratchet state of the new session.
    pub ratchet: Vec<u8>,
}

/// A [`FreshGroupSession`] as a mathematical value.
pub struct FreshGroupSessionView {
    pub session_id: Seq<char>,
    pub ratchet: Seq<u8>,
}

impl View for FreshGroupSession {
    type V = FreshGroupSessionView;

    open spec fn view(&self) -> FreshGroupSessionView {
        FreshGroupSessionView { session_id: self.session_id@, ratchet: self.ratchet@ }
    }
}

/// What the primitive hands back when it has encrypted a room message.
#[derive(Debug, PartialEq, Eq)]
pub struct GroupSealed {
    /// The ratchet state after the encryption.
    pub ratchet: Vec<u8>,
    pub ciphertext: String,
}

/// A [`GroupSealed`] as a mathematical value.
pub struct GroupSealedView {
    pub ratchet: Seq<u8>,
    pub ciphertext: Seq<char>,
}

impl View for GroupSealed {
    type V = GroupSealedView;

    open spec fn view(&self) -> GroupSealedView {
        GroupSealedView { ratchet: self.ratchet@, ciphertext: self.ciphertext@ }
    }
}

/// A room message that the primitive has decrypted, and what its payload
/// says of its sender.
#[derive(Debug, PartialEq, Eq)]
pub struct Opened {
    pub plaintext: String,
    /// The ratchet index that the message was encrypted at.
    pub message_index: u32,
    /// The user that the payload names as its sender.
    pub sender_user: String,
    /// The device that the payload names as its sender.
    pub sender_device: String,
}

/// An [`Opened`] as a mathematical value.
pub struct OpenedView {
    pub plaintext: Seq<char>,
    pub message_index: u32,
    pub sender_user: Seq<char>,
    pub sender_device: Seq<char>,
}

impl View for Opened {
    type V = OpenedView;

    open spec fn view(&self) -> OpenedView {
        OpenedView {
            plaintext: self.plaintext@,
            message_index: self.message_index,
            sender_user: self.sender_user@,
            sender_device: self.sender_device@,
        }
    }
}

/// The JSON value that `serde_json::from_str` reads from a text, if the text
/// is one that it accepts.
pub uninterp spec fn parsed_json(text: Seq<char>) -> Option<JsonModel>;

/// The text that an object binds to a name.
pub open spec fn text_member(value: JsonModel, name: Seq<char>) -> Option<Seq<char>> {
    match member(value, name) {
        Some(JsonModel::Text(text)) => Some(text),
        _ => None,
    }
}

/// Calls `serde_json::from_str` for a `serde_json::Value`. Whether it
/// accepts a text and what it then reads depend on the text alone.
#[verifier::external_body]
fn parse_json(text: &str) -> (r: Result<serde_json::Value, serde_json::Error>)
    ensures
        r is Ok <==> parsed_json(text@) is Some,
        r matches Ok(value) ==> parsed_json(text@) == Some(serde_model(value)),
{
    serde_json::from_str(text)
}

/// Calls `serde_json::Value::get` with a name: the member of an object that
/// is bound to the name, and nothing for a value that is no object or an
/// object that does not bind the name.
#[verifier::external_body]
fn serde_member<'a>(value: &'a serde_json::Value, name: &str) -> (r: Option<&'a serde_json::Value>)
    ensures
        match member(serde_model(*value), name@) {
            Some(found) => r matches Some(v) && serde_model(*v) == found,
            None => r is None,
        },
{
    value.get(name)
}

/// Calls `serde_json::Value::as_str`, and copies what it gives: the text of
/// a value that is a text, and nothing for any other value.
#[verifier::external_body]
fn serde_as_text(value: &serde_json::Value) -> (r: Option<String>)
    ensures
        match serde_model(*value) {
            JsonModel::Text(text) => r matches Some(s) && s@ == text,
            _ => r is None,
        },
{
    value.as_str().map(str::to_owned)
}

/// What is read from the payload of a room message that was encrypted at
/// `message_index`. The payload has to be JSON, and an object that names the
/// user and the device that sent it under `sender` and `sender_device`.
pub open spec fn reading(plaintext: Seq<char>, message_index: u32) -> Result<
    OpenedView,
    MegolmErrorView,
> {
    match parsed_json(plaintext) {
        None => Err(MegolmErrorView::JsonError),
        Some(payload) => match text_member(payload, "sender"@) {
            None => Err(MegolmErrorView::EventError(EventErrorView::MissingField("sender"@))),
            Some(sender_user) => match text_member(payload, "sender_device"@) {
                None => Err(
                    MegolmErrorView::EventError(EventErrorView::MissingField("sender_device"@)),
                ),
                Some(sender_device) => Ok(
                    OpenedView { plaintext, message_index, sender_user, sender_device },
                ),
            },
        },
    }
}

/// The text that a parsed object binds to a name.
fn text_of(payload: &serde_json::Value, name: &str) -> (r: Option<String>)
    ensures
        optional_view(r) == text_member(serde_model(*payload), name@),
{
    match serde_member(payload, name) {
        Some(found) => serde_as_text(found),
        None => None,
    }
}

/// Reads the payload of a room message that the primitive has decrypted.
pub fn read_payload(plaintext: String, message_index: u32) -> (r: Result<Opened, MegolmError>)
    ensures
        result_view(r) == reading(plaintext@, message_index),
{
    let payload = match parse_json(plaintext.as_str()) {
        Ok(payload) => payload,
        Err(error) => { return Err(MegolmError::from(error)); },
    };
    let sender_user = match text_of(&payload, "sender") {
        Some(sender_user) => sender_user,
        None => {
            return Err(MegolmError::EventError(EventError::MissingField("sender".to_owned())));
        },
    };
    let sender_device = match text_of(&payload, "sender_device") {
        Some(sender_device) => sender_device,
        None => {
            return Err(
                MegolmError::EventError(EventError::MissingField("sender_device".to_owned())),
            );
        },
    };
    Ok(Opened { plaintext, message_index, sender_user, sender_device })
}

/// A new outbound session of a room: nothing encrypted, nothing shared.
pub open spec fn new_outbound(
    room_id: Seq<char>,
    fresh: FreshGroupSessionView,
    now: u64,
) -> OutboundGroupSessionView {
    OutboundGroupSessionView {
        room_id,
        session_id: fresh.session_id,
        ratchet: fresh.ratchet,
        message_index: 0,
        creation_time: now,
        shared_with: Seq::empty(),
    }
}

/// What is written and what is returned when a room is given an outbound
/// session. A room that has one keeps it, and the fresh key material is not
/// used: a session is replaced by a rotation only.
pub open spec fn creation(
    room_id: Seq<char>,
    fresh: FreshGroupSessionView,
    stored: Option<OutboundGroupSessionView>,
    now: u64,
) -> (Option<OutboundGroupSessionView>, OutboundGroupSessionView) {
    match stored {
        Some(session) => (None, session),
        None => (Some(new_outbound(room_id, fresh, now)), new_outbound(room_id, fresh, now)),
    }
}

/// What is written and what is returned when the outbound session of a room
/// is rotated. There has to be a session to replace, and the fresh key
/// material has to be that of another session. The new session has nothing
/// encrypted and nothing shared.
pub open spec fn rotation(
    room_id: Seq<char>,
    fresh: FreshGroupSessionView,
    stored: Option<OutboundGroupSessionView>,
    now: u64,
) -> (Option<OutboundGroupSessionView>, Result<OutboundGroupSessionView, MegolmErrorView>) {
    match stored {
        None => (None, Err(MegolmErrorView::MissingSession)),
        Some(session) => if session.session_id == fresh.session_id {
            (None, Err(MegolmErrorView::OlmGroupSession(OlmGroupSessionError::BadSessionKey)))
        } else {
            (Some(new_outbound(room_id, fresh, now)), Ok(new_outbound(room_id, fresh, now)))
        },
    }
}

/// The session that a room message is encrypted with: the room's outbound
/// session. Without one there is a failure: none is created here.
pub open spec fn group_selection(stored: Option<OutboundGroupSessionView>) -> Result<
    OutboundGroupSessionView,
    MegolmErrorView,
> {
    match stored {
        Some(session) => Ok(session),
        None => Err(MegolmErrorView::MissingSession),
    }
}

/// What is written and what is returned when the primitive reports on an
/// encryption with `used`, a copy of what the store held; `stored` is what
/// the store holds now for the room. A failure of the primitive is reported.
/// The ciphertext is accepted if the store still holds that session at the
/// index that was used, and the indices are not used up: the session is
/// written with the new ratchet state and the next index, and the message
/// is handed out under the session's identifier. Otherwise nothing is
/// written and the encryption fails.
pub open spec fn group_encryption(
    used: OutboundGroupSessionView,
    outcome: Result<GroupSealedView, OlmGroupSessionError>,
    stored: Option<OutboundGroupSessionView>,
) -> (Option<OutboundGroupSessionView>, Result<GroupMessageView, MegolmErrorView>) {
    match outcome {
        Err(error) => (None, Err(MegolmErrorView::OlmGroupSession(error))),
        Ok(sealed) => match stored {
            None => (None, Err(MegolmErrorView::MissingSession)),
            Some(session) => if session.session_id != used.session_id || session.message_index
                != used.message_index {
                (None, Err(MegolmErrorView::Store(CryptoStoreErrorView::Conflict)))
            } else if session.message_index == u32::MAX {
                (None, Err(MegolmErrorView::MissingSession))
            } else {
                (
                    Some(
                        OutboundGroupSessionView {
                            ratchet: sealed.ratchet,
                            message_index: (session.message_index + 1) as u32,
                            ..session
                        },
                    ),
                    Ok(
                        GroupMessageView {
                            algorithm: megolm_algorithm(),
                            session_id: session.session_id,
                            ciphertext: sealed.ciphertext,
                        },
                    ),
                )
            },
        },
    }
}

/// The devices that a session still has to be sent to: those of `targets`
/// that it has not been shared with, each once, in the order in which they
/// first occur.
pub open spec fn pending_of(shared_with: Seq<Seq<char>>, targets: Seq<Seq<char>>) -> Seq<
    Seq<char>,
>
    decreases targets.len(),
{
    if targets.len() == 0 {
        Seq::empty()
    } else {
        let earlier = pending_of(shared_with, targets.drop_last());
        if shared_with.contains(targets.last()) || earlier.contains(targets.last()) {
            earlier
        } else {
            earlier.push(targets.last())
        }
    }
}

/// What is written and what is returned when a session has been sent to a
/// device. The room's outbound session has to be the one that was sent
/// still. A device that is marked already stays marked, and nothing is
/// written.
pub open spec fn sharing(
    session_id: Seq<char>,
    device_key: Seq<char>,
    stored: Option<OutboundGroupSessionView>,
) -> (Option<OutboundGroupSessionView>, Result<(), MegolmErrorView>) {
    match stored {
        None => (None, Err(MegolmErrorView::MissingSession)),
        Some(session) => if session.session_id != session_id {
            (None, Err(MegolmErrorView::Store(CryptoStoreErrorView::Conflict)))
        } else if session.shared_with.contains(device_key) {
            (None, Ok(()))
        } else {
            (
                Some(
                    OutboundGroupSessionView {
                        shared_with: session.shared_with.push(device_key),
                        ..session
                    },
                ),
                Ok(()),
            )
        },
    }
}

/// The inbound session that a room message from `sender` is decrypted with,
/// `found` being what the store holds for the room, the message's session
/// and the sender's identity key. The algorithm has to be the expected one,
/// the session has to be there, and the signing key that it is bound to has
/// to be the one known of the sender.
pub open spec fn opening(
    message: GroupMessageView,
    sender: DeviceIdentityView,
    found: Option<InboundGroupSessionView>,
) -> Result<InboundGroupSessionView, MegolmErrorView> {
    if message.algorithm != megolm_algorithm() {
        Err(MegolmErrorView::EventError(EventErrorView::UnsupportedAlgorithm))
    } else {
        match found {
            None => Err(MegolmErrorView::MissingSession),
            Some(session) => if session.signing_key != sender.signing_key {
                Err(MegolmErrorView::EventError(EventErrorView::MissmatchedKeys))
            } else {
                Ok(session)
            },
        }
    }
}

/// What a decryption ends with when the primitive reports on it. A failure
/// of the primitive is reported. A message from before the earliest index
/// that the session can decrypt is refused as one of an unknown index. The
/// sender that the payload names has to be the device that delivered the
/// message. Then the plaintext is handed out.
pub open spec fn group_decryption(
    session: InboundGroupSessionView,
    sender: DeviceIdentityView,
    outcome: Result<OpenedView, OlmGroupSessionError>,
) -> Result<Seq<char>, MegolmErrorView> {
    match outcome {
        Err(error) => Err(MegolmErrorView::OlmGroupSession(error)),
        Ok(opened) => if opened.message_index < session.first_known_index {
            Err(MegolmErrorView::OlmGroupSession(OlmGroupSessionError::UnknownMessageIndex))
        } else if opened.sender_user != sender.user_id || opened.sender_device
            != sender.device_id {
            Err(MegolmErrorView::EventError(EventErrorView::MissmatchedSender))
        } else {
            Ok(opened.plaintext)
        },
    }
}

/// Whether an inbound session that has been received is saved: where the
/// store holds none under its key, or one with the same signing key that
/// starts at a later index. A stored session is never replaced by one that
/// can decrypt less.
pub open spec fn acceptance(
    incoming: InboundGroupSessionView,
    stored: Option<InboundGroupSessionView>,
) -> bool {
    match stored {
        None => true,
        Some(session) => session.signing_key == incoming.signing_key
            && incoming.first_known_index < session.first_known_index,
    }
}

/// The state of a store after an optional write of an outbound session.
pub open spec fn after_outbound_write(
    state: StoreState,
    write: Option<OutboundGroupSessionView>,
) -> StoreState {
    match write {
        Some(session) => state.with_outbound_group_session(session),
        None => state,
    }
}

/// Whether a list of names holds a name.
pub fn holds_name(names: &Vec<String>, name: &String) -> (r: bool)
    ensures
        r == names_of(names@).contains(name@),
{
    let mut i: usize = 0;
    while i < names.len()
        invariant
            i <= names.len(),
            forall|j: int| 0 <= j < i ==> (#[trigger] names_of(names@)[j]) != name@,
        decreases names.len() - i,
    {
        if names[i] == *name {
            assert(names_of(names@)[i as int] == name@);
            return true;
        }
        i = i + 1;
    }
    false
}

/// The devices that `session` still has to be sent to, among `targets`.
pub fn pending_recipients(session: &OutboundGroupSession, targets: &Vec<String>) -> (r: Vec<String>)
    ensures
        names_of(r@) == pending_of(session@.shared_with, names_of(targets@)),
{
    let mut pending: Vec<String> = Vec::new();
    let mut i: usize = 0;
    assert(names_of(targets@).take(0) =~= Seq::empty());
    assert(names_of(pending@) =~= Seq::empty());
    while i < targets.len()
        invariant
            i <= targets.len(),
            names_of(pending@) == pending_of(
                names_of(session.shared_with@),
                names_of(targets@).take(i as int),
            ),
        decreases targets.len() - i,
    {
        proof {
            assert(names_of(targets@).take(i + 1).drop_last() =~= names_of(targets@).take(
                i as int,
            ));
            assert(names_of(targets@).take(i + 1).last() == targets@[i as int]@);
        }
        if !holds_name(&session.shared_with, &targets[i]) && !holds_name(&pending, &targets[i]) {
            let ghost before = pending@;
            pending.push(targets[i].clone());
            assert(names_of(pending@) =~= names_of(before).push(targets@[i as int]@));
        }
        i = i + 1;
    }
    assert(names_of(targets@).take(targets.len() as int) =~= names_of(targets@));
    pending
}

/// The manager of the group sessions of rooms.
#[derive(Debug)]
pub struct GroupSessionManager {}

impl GroupSessionManager {
    /// A manager. It holds nothing: what it decides on is in the store.
    pub fn new() -> Self {
        GroupSessionManager {  }
    }

    /// Decides what is written and what is returned when a room is given
    /// an outbound session.
    pub fn create(
        &self,
        room_id: String,
        fresh: FreshGroupSession,
        stored: Option<OutboundGroupSession>,
        now: u64,
    ) -> (r: (Option<OutboundGroupSession>, OutboundGroupSession))
        ensures
            (optional_view(r.0), r.1@) == creation(room_id@, fresh@, optional_view(stored), now),
    {
        match stored {
            Some(session) => (None, session),
            None => {
                let session = OutboundGroupSession {
                    room_id,
                    session_id: fresh.session_id,
                    ratchet: fresh.ratchet,
                    message_index: 0,
                    creation_time: now,
                    shared_with: Vec::new(),
                };
                assert(names_of(session.shared_with@) =~= Seq::empty());
                (Some(session.clone()), session)
            },
        }
    }

    /// Gives a room its outbound session, from key material that the
    /// primitive has made, and does not distribute it. A room that has a
    /// session keeps it. The session is written to the store before it is
    /// returned; where the store fails, nothing has been written.
    pub fn create_outbound<S: CryptoStore>(
        &self,
        store: &mut S,
        room_id: String,
        fresh: FreshGroupSession,
        now: u64,
    ) -> (r: Result<OutboundGroupSession, MegolmError>)
        ensures
            ({
                let decided = creation(
                    room_id@,
                    fresh@,
                    old(store).state().outbound_group_session(room_id@),
                    now,
                );
                ||| result_view(r) == Ok::<OutboundGroupSessionView, MegolmErrorView>(decided.1)
                    && final(store).state() == after_outbound_write(old(store).state(), decided.0)
                ||| !old(store).infallible() && megolm_store_failure(result_view(r)) && final(store).state() == old(store).state()
            }),
            final(store).infallible() == old(store).infallible(),
    {
        let stored = match store.get_outbound_group_session(room_id.as_str()) {
            Ok(stored) => stored,
            Err(error) => { return Err(MegolmError::Store(error)); },
        };
        let decided = self.create(room_id, fresh, stored, now);
        match decided.0 {
            Some(write) => match store.save_outbound_group_session(&write) {
                Ok(_) => Ok(decided.1),
                Err(error) => Err(MegolmError::Store(error)),
            },
            None => Ok(decided.1),
        }
    }

    /// Decides what is written and what is returned when the outbound
    /// session of a room is rotated.
    pub fn rotate(
        &self,
        room_id: String,
        fresh: FreshGroupSession,
        stored: Option<OutboundGroupSession>,
        now: u64,
    ) -> (r: (Option<OutboundGroupSession>, Result<OutboundGroupSession, MegolmError>))
        ensures
            (optional_view(r.0), result_view(r.1)) == rotation(
                room_id@,
                fresh@,
                optional_view(stored),
                now,
            ),
    {
        match stored {
            None => (None, Err(MegolmError::MissingSession)),
            Some(session) => {
                if session.session_id == fresh.session_id {
                    (None, Err(MegolmError::OlmGroupSession(OlmGroupSessionError::BadSessionKey)))
                } else {
                    let session = OutboundGroupSession {
                        room_id,
                        session_id: fresh.session_id,
                        ratchet: fresh.ratchet,
                        message_index: 0,
                        creation_time: now,
                        shared_with: Vec::new(),
                    };
                    assert(names_of(session.shared_with@) =~= Seq::empty());
                    (Some(session.clone()), Ok(session))
                }
            },
        }
    }

    /// Replaces the outbound session of a room by a new one, from key
    /// material that the primitive has made. The replacement is one write:
    /// the store holds either the old session or the new one. Where the
    /// store fails, nothing has been written.
    pub fn rotate_outbound<S: CryptoStore>(
        &self,
        store: &mut S,
        room_id: String,
        fresh: FreshGroupSession,
        now: u64,
    ) -> (r: Result<OutboundGroupSession, MegolmError>)
        ensures
            ({
                let decided = rotation(
                    room_id@,
                    fresh@,
                    old(store).state().outbound_group_session(room_id@),
                    now,
                );
                ||| result_view(r) == decided.1 && final(store).state() == after_outbound_write(
                    old(store).state(),
                    decided.0,
                )
                ||| !old(store).infallible() && megolm_store_failure(result_view(r)) && final(store).state() == old(store).state()
            }),
            final(store).infallible() == old(store).infallible(),
    {
        let stored = match store.get_outbound_group_session(room_id.as_str()) {
            Ok(stored) => stored,
            Err(error) => { return Err(MegolmError::Store(error)); },
        };
        let decided = self.rotate(room_id, fresh, stored, now);
        match decided.0 {
            Some(write) => match store.save_outbound_group_session(&write) {
                Ok(_) => decided.1,
                Err(error) => Err(MegolmError::Store(error)),
            },
            None => decided.1,
        }
    }

    /// Picks the session that a room message is encrypted with.
    pub fn select(&self, stored: Option<OutboundGroupSession>) -> (r: Result<
        OutboundGroupSession,
        MegolmError,
    >)
        ensures
            result_view(r) == group_selection(optional_view(stored)),
    {
        match stored {
            Some(session) => Ok(session),
            None => Err(MegolmError::MissingSession),
        }
    }

    /// Starts the encryption of a room message: reads the outbound session
    /// of the room. The store is only read.
    pub fn begin_encrypt<S: CryptoStore>(&self, store: &S, room_id: &str) -> (r: Result<
        OutboundGroupSession,
        MegolmError,
    >)
        ensures
            result_view(r) == group_selection(store.state().outbound_group_session(room_id@))
                || !store.infallible() && megolm_store_failure(result_view(r)),
    {
        match store.get_outbound_group_session(room_id) {
            Ok(stored) => self.select(stored),
            Err(error) => Err(MegolmError::Store(error)),
        }
    }

    /// Decides what is written and what is returned when the primitive
    /// reports on an encryption.
    pub fn seal(
        &self,
        used: &OutboundGroupSession,
        outcome: Result<GroupSealed, OlmGroupSessionError>,
        stored: Option<OutboundGroupSession>,
    ) -> (r: (Option<OutboundGroupSession>, Result<GroupMessage, MegolmError>))
        ensures
            (optional_view(r.0), result_view(r.1)) == group_encryption(
                used@,
                result_view(outcome),
                optional_view(stored),
            ),
    {
        match outcome {
            Err(error) => (None, Err(MegolmError::OlmGroupSession(error))),
            Ok(sealed) => match stored {
                None => (None, Err(MegolmError::MissingSession)),
                Some(session) => {
                    if session.session_id != used.session_id || session.message_index
                        != used.message_index {
                        (None, Err(MegolmError::Store(CryptoStoreError::Conflict)))
                    } else if session.message_index == u32::MAX {
                        (None, Err(MegolmError::MissingSession))
                    } else {
                        let message = GroupMessage {
                            algorithm: "m.megolm.v1.aes-sha2".to_owned(),
                            session_id: session.session_id.clone(),
                            ciphertext: sealed.ciphertext,
                        };
                        (
                            Some(
                                OutboundGroupSession {
                                    room_id: session.room_id,
                                    session_id: session.session_id,
                                    ratchet: sealed.ratchet,
                                    message_index: session.message_index + 1,
                                    creation_time: session.creation_time,
                                    shared_with: session.shared_with,
                                },
                            ),
                            Ok(message),
                        )
                    }
                },
            },
        }
    }

    /// Ends the encryption of a room message once the primitive has
    /// reported on it. What [`group_encryption`] says is written to the
    /// store before the message is returned; where the store fails, the
    /// encryption fails with that failure and nothing has been written.
    pub fn finish_encrypt<S: CryptoStore>(
        &self,
        store: &mut S,
        used: &OutboundGroupSession,
        outcome: Result<GroupSealed, OlmGroupSessionError>,
    ) -> (r: Result<GroupMessage, MegolmError>)
        ensures
            ({
                let decided = group_encryption(
                    used@,
                    result_view(outcome),
                    old(store).state().outbound_group_session(used.room_id@),
                );
                ||| result_view(r) == decided.1 && final(store).state() == after_outbound_write(
                    old(store).state(),
                    decided.0,
                )
                ||| !old(store).infallible() && megolm_store_failure(result_view(r)) && final(store).state() == old(store).state()
            }),
            final(store).infallible() == old(store).infallible(),
    {
        let stored = match store.get_outbound_group_session(used.room_id.as_str()) {
            Ok(stored) => stored,
            Err(error) => { return Err(MegolmError::Store(error)); },
        };
        let decided = self.seal(used, outcome, stored);
        match decided.0 {
            Some(write) => match store.save_outbound_group_session(&write) {
                Ok(_) => decided.1,
                Err(error) => Err(MegolmError::Store(error)),
            },
            None => decided.1,
        }
    }

    /// Decides what is written and what is returned when a session has
    /// been sent to a device.
    pub fn share(
        &self,
        session_id: &String,
        device_key: &String,
        stored: Option<OutboundGroupSession>,
    ) -> (r: (Option<OutboundGroupSession>, Result<(), MegolmError>))
        ensures
            (optional_view(r.0), result_view(r.1)) == sharing(
                session_id@,
                device_key@,
                optional_view(stored),
            ),
    {
        match stored {
            None => (None, Err(MegolmError::MissingSession)),
            Some(session) => {
                if session.session_id != *session_id {
                    (None, Err(MegolmError::Store(CryptoStoreError::Conflict)))
                } else if holds_name(&session.shared_with, device_key) {
                    (None, Ok(()))
                } else {
                    let mut session = session;
                    let ghost before = session.shared_with@;
                    session.shared_with.push(device_key.clone());
                    assert(names_of(session.shared_with@) =~= names_of(before).push(device_key@));
                    (Some(session), Ok(()))
                }
            },
        }
    }

    /// Marks the device with the identity key `device_key` as one that the
    /// room's outbound session has been sent to. For a device that is
    /// marked already nothing is written. Where the store fails, nothing
    /// has been written.
    pub fn mark_shared<S: CryptoStore>(
        &self,
        store: &mut S,
        room_id: &str,
        session_id: &String,
        device_key: &String,
    ) -> (r: Result<(), MegolmError>)
        ensures
            ({
                let decided = sharing(
                    session_id@,
                    device_key@,
                    old(store).state().outbound_group_session(room_id@),
                );
                ||| result_view(r) == decided.1 && final(store).state() == after_outbound_write(
                    old(store).state(),
                    decided.0,
                )
                ||| !old(store).infallible() && megolm_store_failure(result_view(r)) && final(store).state() == old(store).state()
            }),
            final(store).infallible() == old(store).infallible(),
    {
        let stored = match store.get_outbound_group_session(room_id) {
            Ok(stored) => stored,
            Err(error) => { return Err(MegolmError::Store(error)); },
        };
        let decided = self.share(session_id, device_key, stored);
        match decided.0 {
            Some(write) => match store.save_outbound_group_session(&write) {
                Ok(_) => decided.1,
                Err(error) => Err(MegolmError::Store(error)),
            },
            None => decided.1,
        }
    }

    /// Picks the inbound session that a room message is decrypted with.
    pub fn open(
        &self,
        message: &GroupMessage,
        sender: &DeviceIdentity,
        found: Option<InboundGroupSession>,
    ) -> (r: Result<InboundGroupSession, MegolmError>)
        ensures
            result_view(r) == opening(message@, sender@, optional_view(found)),
    {
        let expected: String = "m.megolm.v1.aes-sha2".to_owned();
        if message.algorithm != expected {
            return Err(MegolmError::EventError(EventError::UnsupportedAlgorithm));
        }
        match found {
            None => Err(MegolmError::MissingSession),
            Some(session) => {
                if session.signing_key != sender.signing_key {
                    Err(MegolmError::EventError(EventError::MissmatchedKeys))
                } else {
                    Ok(session)
                }
            },
        }
    }

    /// Starts the decryption of a message that `sender` delivered to a
    /// room: reads the inbound session for the room, the message's session
    /// and the sender's identity key. The store is only read.
    pub fn begin_decrypt<S: CryptoStore>(
        &self,
        store: &S,
        room_id: &str,
        sender: &DeviceIdentity,
        message: &GroupMessage,
    ) -> (r: Result<InboundGroupSession, MegolmError>)
        ensures
            result_view(r) == opening(
                message@,
                sender@,
                store.state().inbound_group_session(
                    room_id@,
                    message.session_id@,
                    sender.identity_key@,
                ),
            ) || !store.infallible() && megolm_store_failure(result_view(r)),
    {
        match store.get_inbound_group_session(
            room_id,
            message.session_id.as_str(),
            sender.identity_key.as_str(),
        ) {
            Ok(found) => self.open(message, sender, found),
            Err(error) => Err(MegolmError::Store(error)),
        }
    }

    /// Ends the decryption of a room message once the primitive has
    /// reported on it: reads the payload that the primitive has decrypted
    /// and decides whether it is handed out. Nothing is written: an inbound
    /// session stays able to decrypt whatever it could decrypt before.
    pub fn finish_decrypt(
        &self,
        session: &InboundGroupSession,
        sender: &DeviceIdentity,
        outcome: Result<(String, u32), OlmGroupSessionError>,
    ) -> (r: Result<String, MegolmError>)
        ensures
            result_view(r) == match outcome {
                Err(error) => Err(MegolmErrorView::OlmGroupSession(error)),
                Ok(decrypted) => match reading(decrypted.0@, decrypted.1) {
                    Err(error) => Err(error),
                    Ok(opened) => group_decryption(session@, sender@, Ok(opened)),
                },
            },
    {
        match outcome {
            Err(error) => Err(MegolmError::OlmGroupSession(error)),
            Ok(decrypted) => match read_payload(decrypted.0, decrypted.1) {
                Err(error) => Err(error),
                Ok(opened) => self.deliver(session, sender, Ok(opened)),
            },
        }
    }

    /// Decides whether a payload that has been read is handed out.
    pub fn deliver(
        &self,
        session: &InboundGroupSession,
        sender: &DeviceIdentity,
        outcome: Result<Opened, OlmGroupSessionError>,
    ) -> (r: Result<String, MegolmError>)
        ensures
            result_view(r) == group_decryption(session@, sender@, result_view(outcome)),
    {
        match outcome {
            Err(error) => Err(MegolmError::OlmGroupSession(error)),
            Ok(opened) => {
                if opened.message_index < session.first_known_index {
                    Err(MegolmError::OlmGroupSession(OlmGroupSessionError::UnknownMessageIndex))
                } else if opened.sender_user != sender.user_id || opened.sender_device
                    != sender.device_id {
                    Err(MegolmError::EventError(EventError::MissmatchedSender))
                } else {
                    Ok(opened.plaintext)
                }
            },
        }
    }

    /// Whether an inbound session that has been received is saved.
    pub fn accepts(&self, incoming: &InboundGroupSession, stored: &Option<InboundGroupSession>) -> (r:
        bool)
        ensures
            r == acceptance(incoming@, optional_view(*stored)),
    {
        match stored {
            None => true,
            Some(session) => session.signing_key == incoming.signing_key
                && incoming.first_known_index < session.first_known_index,
        }
    }

    /// Takes in an inbound session that has been received. It is saved
    /// where [`acceptance`] says so, and the result tells whether it was.
    /// Where the store fails, nothing has been written.
    pub fn receive_session<S: CryptoStore>(&self, store: &mut S, incoming: &InboundGroupSession) -> (r:
        Result<bool, MegolmError>)
        ensures
            ({
                let accepted = acceptance(
                    incoming@,
                    old(store).state().inbound_group_session(
                        incoming.room_id@,
                        incoming.session_id@,
                        incoming.sender_key@,
                    ),
                );
                ||| r == Ok::<bool, MegolmError>(accepted) && final(store).state() == if accepted {
                    old(store).state().with_inbound_group_session(incoming@)
                } else {
                    old(store).state()
                }
                ||| !old(store).infallible() && megolm_store_failure(result_view(r)) && final(store).state() == old(store).state()
            }),
            final(store).infallible() == old(store).infallible(),
    {
        let stored = match store.get_inbound_group_session(
            incoming.room_id.as_str(),
            incoming.session_id.as_str(),
            incoming.sender_key.as_str(),
        ) {
            Ok(stored) => stored,
            Err(error) => { return Err(MegolmError::Store(error)); },
        };
        if self.accepts(incoming, &stored) {
            match store.save_inbound_group_session(incoming) {
                Ok(_) => Ok(true),
                Err(error) => Err(MegolmError::Store(error)),
            }
        } else {
            Ok(false)
        }
    }
}

/// Whether a payload names `sender` as its sender.
pub open spec fn names_sender(opened: OpenedView, sender: DeviceIdentityView) -> bool {
    opened.sender_user == sender.user_id && opened.sender_device == sender.device_id
}

/// An inbound session decrypts a message at any index from its earliest one
/// on, and so the message at the next index too, and it refuses a message at
/// an earlier index as one of an unknown index. A decryption writes nothing,
/// so a message that was decrypted once is decrypted again with the same
/// result.
pub proof fn law_inbound_session_decrypts_from_its_earliest_index(
    session: InboundGroupSessionView,
    sender: DeviceIdentityView,
    opened: OpenedView,
    next: OpenedView,
)
    requires
        names_sender(opened, sender),
        names_sender(next, sender),
        next.message_index == opened.message_index + 1,
    ensures
        opened.message_index >= session.first_known_index ==> group_decryption(
            session,
            sender,
            Ok(opened),
        ) == Ok::<Seq<char>, MegolmErrorView>(opened.plaintext) && group_decryption(
            session,
            sender,
            Ok(next),
        ) == Ok::<Seq<char>, MegolmErrorView>(next.plaintext),
        opened.message_index < session.first_known_index ==> group_decryption(
            session,
            sender,
            Ok(opened),
        ) == Err::<Seq<char>, MegolmErrorView>(
            MegolmErrorView::OlmGroupSession(OlmGroupSessionError::UnknownMessageIndex),
        ),
{
}

/// Taking in a received session never makes the store decrypt less: where a
/// session was held under the same key, the one held afterwards starts at
/// the same index or an earlier one, and is bound to the same signing key.
pub proof fn law_received_session_never_decrypts_less(
    state: StoreState,
    incoming: InboundGroupSessionView,
)
    ensures
        ({
            let stored = state.inbound_group_session(
                incoming.room_id,
                incoming.session_id,
                incoming.sender_key,
            );
            let after = if acceptance(incoming, stored) {
                state.with_inbound_group_session(incoming)
            } else {
                state
            };
            let held = after.inbound_group_session(
                incoming.room_id,
                incoming.session_id,
                incoming.sender_key,
            );
            &&& held is Some
            &&& stored matches Some(before) ==> held->0.first_known_index
                <= before.first_known_index && held->0.signing_key == before.signing_key
            &&& stored is None ==> held == Some(incoming)
        }),
{
    lemma_lookup_saved(
        state.inbound_group_sessions,
        is_inbound_group_session(incoming.room_id, incoming.session_id, incoming.sender_key),
        incoming,
    );
}

/// A message whose session has not been received finds no session, and once
/// the session has been received and saved, the same message finds it.
pub proof fn law_missing_session_until_received(
    state: StoreState,
    room_id: Seq<char>,
    sender: DeviceIdentityView,
    message: GroupMessageView,
    incoming: InboundGroupSessionView,
)
    requires
        message.algorithm == megolm_algorithm(),
        state.inbound_group_session(room_id, message.session_id, sender.identity_key) is None,
        incoming.room_id == room_id,
        incoming.session_id == message.session_id,
        incoming.sender_key == sender.identity_key,
        incoming.signing_key == sender.signing_key,
    ensures
        opening(
            message,
            sender,
            state.inbound_group_session(room_id, message.session_id, sender.identity_key),
        ) == Err::<InboundGroupSessionView, MegolmErrorView>(MegolmErrorView::MissingSession),
        acceptance(
            incoming,
            state.inbound_group_session(room_id, message.session_id, sender.identity_key),
        ),
        opening(
            message,
            sender,
            state.with_inbound_group_session(incoming).inbound_group_session(
                room_id,
                message.session_id,
                sender.identity_key,
            ),
        ) == Ok::<InboundGroupSessionView, MegolmErrorView>(incoming),
{
    lemma_lookup_saved(
        state.inbound_group_sessions,
        is_inbound_group_session(room_id, message.session_id, sender.identity_key),
        incoming,
    );
}

/// After a rotation, a room message is encrypted under the new session,
/// whose identifier is not that of the session before; the new session
/// starts at index 0 with nothing shared; and the rotation leaves every
/// inbound session as it was, so what the session before has encrypted can
/// still be decrypted.
pub proof fn law_rotation_changes_the_session(
    state: StoreState,
    room_id: Seq<char>,
    fresh: FreshGroupSessionView,
    now: u64,
    sealed: GroupSealedView,
)
    requires
        state.outbound_group_session(room_id) matches Some(before) && before.session_id
            != fresh.session_id,
    ensures
        ({
            let before = state.outbound_group_session(room_id)->0;
            let rotated = rotation(room_id, fresh, Some(before), now);
            let after = after_outbound_write(state, rotated.0);
            let held = after.outbound_group_session(room_id);
            let encrypted = group_encryption(new_outbound(room_id, fresh, now), Ok(sealed), held);
            &&& rotated.1 == Ok::<OutboundGroupSessionView, MegolmErrorView>(
                new_outbound(room_id, fresh, now),
            )
            &&& held == Some(new_outbound(room_id, fresh, now))
            &&& encrypted.1 matches Ok(message) && message.session_id == fresh.session_id
                && message.session_id != before.session_id
            &&& after.inbound_group_sessions == state.inbound_group_sessions
        }),
{
    lemma_lookup_saved(
        state.outbound_group_sessions,
        is_outbound_group_session(room_id),
        new_outbound(room_id, fresh, now),
    );
}

/// Each accepted encryption moves the stored session on by one index, and a
/// second encryption that was computed from the same copy is refused with
/// nothing written: no index is used for two messages.
pub proof fn law_one_message_per_index(
    state: StoreState,
    used: OutboundGroupSessionView,
    first: GroupSealedView,
    second: GroupSealedView,
)
    requires
        state.outbound_group_session(used.room_id) == Some(used),
        used.message_index < u32::MAX,
    ensures
        ({
            let accepted = group_encryption(used, Ok(first), Some(used));
            let after = after_outbound_write(state, accepted.0);
            let held = after.outbound_group_session(used.room_id);
            let refused = group_encryption(used, Ok(second), held);
            &&& accepted.1 is Ok
            &&& held matches Some(session) && session.message_index == used.message_index + 1
                && session.session_id == used.session_id && session.shared_with
                == used.shared_with
            &&& refused.0 is None
            &&& refused.1 == Err::<GroupMessageView, MegolmErrorView>(
                MegolmErrorView::Store(CryptoStoreErrorView::Conflict),
            )
        }),
{
    let accepted = group_encryption(used, Ok(first), Some(used));
    lemma_lookup_saved(
        state.outbound_group_sessions,
        is_outbound_group_session(used.room_id),
        accepted.0->0,
    );
}

/// Distribution is idempotent: a device that a session has been marked as
/// shared with is no longer pending, and marking it again writes nothing.
pub proof fn law_distribution_is_idempotent(
    session: OutboundGroupSessionView,
    device_key: Seq<char>,
    targets: Seq<Seq<char>>,
)
    ensures
        ({
            let marked = sharing(session.session_id, device_key, Some(session));
            let held = match marked.0 {
                Some(written) => written,
                None => session,
            };
            &&& marked.1 is Ok
            &&& held.shared_with.contains(device_key)
            &&& sharing(session.session_id, device_key, Some(held)) == (
                None::<OutboundGroupSessionView>,
                Ok::<(), MegolmErrorView>(()),
            )
            &&& !pending_of(held.shared_with, targets).contains(device_key)
        }),
{
    let marked = sharing(session.session_id, device_key, Some(session));
    let held = match marked.0 {
        Some(written) => written,
        None => session,
    };
    if !session.shared_with.contains(device_key) {
        assert(held.shared_with[session.shared_with.len() as int] == device_key);
    }
    lemma_pending_excludes_shared(held.shared_with, targets, device_key);
}

/// A device that a session has been shared with is not pending, and no
/// device is pending twice.
pub proof fn lemma_pending_excludes_shared(
    shared_with: Seq<Seq<char>>,
    targets: Seq<Seq<char>>,
    device_key: Seq<char>,
)
    ensures
        shared_with.contains(device_key) ==> !pending_of(shared_with, targets).contains(
            device_key,
        ),
        pending_of(shared_with, targets).contains(device_key) ==> targets.contains(device_key),
        pending_of(shared_with, targets).no_duplicates(),
    decreases targets.len(),
{
    if targets.len() > 0 {
        let earlier = pending_of(shared_with, targets.drop_last());
        lemma_pending_excludes_shared(shared_with, targets.drop_last(), device_key);
        let pending = pending_of(shared_with, targets);
        if pending.contains(device_key) {
            let i = choose|i: int| 0 <= i < pending.len() && pending[i] == device_key;
            if i < earlier.len() {
                assert(earlier[i] == device_key);
                assert(earlier.contains(device_key));
                let j = choose|j: int|
                    0 <= j < targets.drop_last().len() && targets.drop_last()[j] == device_key;
                assert(targets[j] == device_key);
            } else {
                assert(targets[targets.len() - 1] == device_key);
            }
        }
        if shared_with.contains(device_key) && pending.contains(device_key) {
            let i = choose|i: int| 0 <= i < pending.len() && pending[i] == device_key;
            if i < earlier.len() {
                assert(earlier[i] == device_key);
            }
        }
        assert forall|i: int, j: int|
            0 <= i < pending.len() && 0 <= j < pending.len() && i != j implies pending[i]
            != pending[j] by {
            if i < earlier.len() && j < earlier.len() {
            } else if i < earlier.len() {
                assert(earlier[i] == pending[i]);
                assert(earlier.contains(pending[i]));
            } else if j < earlier.len() {
                assert(earlier[j] == pending[j]);
                assert(earlier.contains(pending[j]));
            }
        }
    }
}

/// A room message goes from the sender's manager to the receiver's as the
/// primitive made it: what an accepted encryption hands out carries the
/// primitive's ciphertext under the session's identifier, and the receiver
/// who holds the inbound side of that session, bound to the sender's signing
/// key, opens that session for it and hands out what the primitive decrypts,
/// if the payload names the sender and the index is one that the session
/// starts at or after.
pub proof fn law_room_messages_pass_unchanged(
    used: OutboundGroupSessionView,
    sealed: GroupSealedView,
    held: InboundGroupSessionView,
    sender: DeviceIdentityView,
    opened: OpenedView,
)
    requires
        used.message_index < u32::MAX,
        held.session_id == used.session_id,
        held.signing_key == sender.signing_key,
        names_sender(opened, sender),
        opened.message_index >= held.first_known_index,
    ensures
        ({
            let sent = group_encryption(used, Ok(sealed), Some(used));
            &&& sent.1 matches Ok(message) && message.ciphertext == sealed.ciphertext
                && message.session_id == used.session_id && opening(message, sender, Some(held))
                == Ok::<InboundGroupSessionView, MegolmErrorView>(held)
            &&& group_decryption(held, sender, Ok(opened)) == Ok::<Seq<char>, MegolmErrorView>(
                opened.plaintext,
            )
        }),
{
}

} // verus!
