//! The records that the session managers keep in the store.
//!
//! Ratchet state is opaque here: a record carries it as bytes, the
//! cryptographic primitive is the only one to read them, and the managers
//! only put a newer state in the place of an older one.

use vstd::prelude::*;

verus! {

/// A pairwise ratcheting channel with one remote device.
#[derive(Debug, PartialEq, Eq)]
pub struct DeviceSession {
    /// Derived from the initial key material, so both sides agree on it.
    pub session_id: String,
    /// The identity key of the remote device.
    pub sender_key: String,
    /// The ratchet state.
    pub ratchet: Vec<u8>,
    pub creation_time: u64,
    pub last_use_time: u64,
    /// How many times the stored ratchet has been advanced.
    pub generation: u64,
    /// How many decryptions in a row this session has failed.
    pub failures: u32,
}

/// A [`DeviceSession`] as a mathematical value.
pub struct DeviceSessionView {
    pub session_id: Seq<char>,
    pub sender_key: Seq<char>,
    pub ratchet: Seq<u8>,
    pub creation_time: u64,
    pub last_use_time: u64,
    pub generation: u64,
    pub failures: u32,
}

impl View for DeviceSession {
    type V = DeviceSessionView;

    open spec fn view(&self) -> DeviceSessionView {
        DeviceSessionView {
            session_id: self.session_id@,
            sender_key: self.sender_key@,
            ratchet: self.ratchet@,
            creation_time: self.creation_time,
            last_use_time: self.last_use_time,
            generation: self.generation,
            failures: self.failures,
        }
    }
}

impl Clone for DeviceSession {
    fn clone(&self) -> (r: Self)
        ensures
            r@ == self@,
    {
        DeviceSession {
            session_id: self.session_id.clone(),
            sender_key: self.sender_key.clone(),
            ratchet: self.ratchet.clone(),
            creation_time: self.creation_time,
            last_use_time: self.last_use_time,
            generation: self.generation,
            failures: self.failures,
        }
    }
}

/// The views of a list of names.
pub open spec fn names_of(names: Seq<String>) -> Seq<Seq<char>> {
    names.map_values(|name: String| name@)
}

/// The view of a record that may be absent.
pub open spec fn optional_view<T: View>(record: Option<T>) -> Option<T::V> {
    match record {
        Some(record) => Some(record@),
        None => None,
    }
}

/// The view of what an operation ended with.
pub open spec fn result_view<T: View, E: View>(result: Result<T, E>) -> Result<T::V, E::V> {
    match result {
        Ok(value) => Ok(value@),
        Err(error) => Err(error@),
    }
}

/// The views of a list of records.
pub open spec fn views_of<T: View>(records: Seq<T>) -> Seq<T::V> {
    records.map_values(|record: T| record@)
}

/// This device's sending side of the group encryption of one room.
#[derive(Debug, PartialEq, Eq)]
pub struct OutboundGroupSession {
    pub room_id: String,
    pub session_id: String,
    /// The ratchet state.
    pub ratchet: Vec<u8>,
    /// The index that the next message will be encrypted at.
    pub message_index: u32,
    pub creation_time: u64,
    /// The identity keys of the devices that have been sent this session.
    pub shared_with: Vec<String>,
}

/// An [`OutboundGroupSession`] as a mathematical value.
pub struct OutboundGroupSessionView {
    pub room_id: Seq<char>,
    pub session_id: Seq<char>,
    pub ratchet: Seq<u8>,
    pub message_index: u32,
    pub creation_time: u64,
    pub shared_with: Seq<Seq<char>>,
}

impl View for OutboundGroupSession {
    type V = OutboundGroupSessionView;

    open spec fn view(&self) -> OutboundGroupSessionView {
        OutboundGroupSessionView {
            room_id: self.room_id@,
            session_id: self.session_id@,
            ratchet: self.ratchet@,
            message_index: self.message_index,
            creation_time: self.creation_time,
            shared_with: names_of(self.shared_with@),
        }
    }
}

impl Clone for OutboundGroupSession {
    fn clone(&self) -> (r: Self)
        ensures
            r@ == self@,
    {
        let shared_with = self.shared_with.clone();
        assert(names_of(shared_with@) =~= names_of(self.shared_with@));
        OutboundGroupSession {
            room_id: self.room_id.clone(),
            session_id: self.session_id.clone(),
            ratchet: self.ratchet.clone(),
            message_index: self.message_index,
            creation_time: self.creation_time,
            shared_with,
        }
    }
}

/// The receiving side of a group session: one per room, session and
/// originating device.
#[derive(Debug, PartialEq, Eq)]
pub struct InboundGroupSession {
    pub room_id: String,
    pub session_id: String,
    /// The identity key of the device that the session came from.
    pub sender_key: String,
    /// The signing key that the session was bound to when it was received.
    pub signing_key: String,
    /// The key material.
    pub ratchet: Vec<u8>,
    /// The earliest index that the session can decrypt.
    pub first_known_index: u32,
}

/// An [`InboundGroupSession`] as a mathematical value.
pub struct InboundGroupSessionView {
    pub room_id: Seq<char>,
    pub session_id: Seq<char>,
    pub sender_key: Seq<char>,
    pub signing_key: Seq<char>,
    pub ratchet: Seq<u8>,
    pub first_known_index: u32,
}

impl View for InboundGroupSession {
    type V = InboundGroupSessionView;

    open spec fn view(&self) -> InboundGroupSessionView {
        InboundGroupSessionView {
            room_id: self.room_id@,
            session_id: self.session_id@,
            sender_key: self.sender_key@,
            signing_key: self.signing_key@,
            ratchet: self.ratchet@,
            first_known_index: self.first_known_index,
        }
    }
}

impl Clone for InboundGroupSession {
    fn clone(&self) -> (r: Self)
        ensures
            r@ == self@,
    {
        InboundGroupSession {
            room_id: self.room_id.clone(),
            session_id: self.session_id.clone(),
            sender_key: self.sender_key.clone(),
            signing_key: self.signing_key.clone(),
            ratchet: self.ratchet.clone(),
            first_known_index: self.first_known_index,
        }
    }
}

/// What is known of a device: who it belongs to and its long-term keys.
#[derive(Debug, PartialEq, Eq)]
pub struct DeviceIdentity {
    pub user_id: String,
    pub device_id: String,
    /// The identity key, under which pairwise sessions are kept.
    pub identity_key: String,
    /// The key that the device signs with.
    pub signing_key: String,
    /// Whether the keys were authenticated by the device's own signature.
    pub verified: bool,
}

/// A [`DeviceIdentity`] as a mathematical value.
pub struct DeviceIdentityView {
    pub user_id: Seq<char>,
    pub device_id: Seq<char>,
    pub identity_key: Seq<char>,
    pub signing_key: Seq<char>,
    pub verified: bool,
}

impl View for DeviceIdentity {
    type V = DeviceIdentityView;

    open spec fn view(&self) -> DeviceIdentityView {
        DeviceIdentityView {
            user_id: self.user_id@,
            device_id: self.device_id@,
            identity_key: self.identity_key@,
            signing_key: self.signing_key@,
            verified: self.verified,
        }
    }
}

impl Clone for DeviceIdentity {
    fn clone(&self) -> (r: Self)
        ensures
            r@ == self@,
    {
        DeviceIdentity {
            user_id: self.user_id.clone(),
            device_id: self.device_id.clone(),
            identity_key: self.identity_key.clone(),
            signing_key: self.signing_key.clone(),
            verified: self.verified,
        }
    }
}

} // verus!
