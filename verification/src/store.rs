//! The contract of the store that holds sessions and device identities, and
//! a store that keeps them in memory.
//!
//! What a store holds is described by a [`StoreState`]: four lists of records
//! in the order in which they were first saved. A record is found under its
//! key; saving a record puts it in the place of the record with the same key,
//! or behind all others if there is none. Every operation may fail, and a
//! failed write changes nothing.

use vstd::prelude::*;
use crate::error::CryptoStoreError;
use crate::session::{
    DeviceIdentity, DeviceIdentityView, DeviceSession, DeviceSessionView, InboundGroupSession,
    InboundGroupSessionView, OutboundGroupSession, OutboundGroupSessionView, views_of,
};

verus! {

/// Whether `at` is the place of the first record of `records` that `wanted`
/// holds of.
pub open spec fn is_first<T>(records: Seq<T>, wanted: spec_fn(T) -> bool, at: int) -> bool {
    &&& 0 <= at < records.len()
    &&& wanted(records[at])
    &&& forall|j: int| 0 <= j < at ==> !wanted(#[trigger] records[j])
}

/// The place of the first record that `wanted` holds of.
pub open spec fn position<T>(records: Seq<T>, wanted: spec_fn(T) -> bool) -> Option<int> {
    if exists|at: int| is_first(records, wanted, at) {
        Some(choose|at: int| is_first(records, wanted, at))
    } else {
        None
    }
}

/// The first record that `wanted` holds of.
pub open spec fn lookup<T>(records: Seq<T>, wanted: spec_fn(T) -> bool) -> Option<T> {
    match position(records, wanted) {
        Some(at) => Some(records[at]),
        None => None,
    }
}

/// The records after `record` has been saved under the key `wanted`: in the
/// place of the first record with that key, or at the end.
pub open spec fn upsert<T>(records: Seq<T>, wanted: spec_fn(T) -> bool, record: T) -> Seq<T> {
    match position(records, wanted) {
        Some(at) => records.update(at, record),
        None => records.push(record),
    }
}

/// The first record of a kind stands at one place only.
pub proof fn lemma_position_found<T>(records: Seq<T>, wanted: spec_fn(T) -> bool, at: int)
    requires
        is_first(records, wanted, at),
    ensures
        position(records, wanted) == Some(at),
{
    let chosen = choose|at: int| is_first(records, wanted, at);
    assert(is_first(records, wanted, chosen));
    if chosen < at {
        assert(!wanted(records[chosen]));
    } else if at < chosen {
        assert(!wanted(records[at]));
    }
}

/// A list without a record of a kind has no first one.
pub proof fn lemma_position_none<T>(records: Seq<T>, wanted: spec_fn(T) -> bool)
    requires
        forall|j: int| 0 <= j < records.len() ==> !wanted(#[trigger] records[j]),
    ensures
        position(records, wanted) is None,
{
    if exists|at: int| is_first(records, wanted, at) {
        let at = choose|at: int| is_first(records, wanted, at);
        assert(!wanted(records[at]));
    }
}

/// Where there is a first record of a kind, it is in range and of that kind.
pub proof fn lemma_position_is_first<T>(records: Seq<T>, wanted: spec_fn(T) -> bool)
    ensures
        position(records, wanted) matches Some(at) ==> is_first(records, wanted, at),
        position(records, wanted) is None ==> forall|j: int|
            0 <= j < records.len() ==> !wanted(#[trigger] records[j]),
{
    if position(records, wanted) is None {
        assert forall|j: int| 0 <= j < records.len() implies !wanted(#[trigger] records[j]) by {
            if wanted(records[j]) {
                lemma_some_is_first(records, wanted, j);
            }
        }
    }
}

proof fn lemma_some_is_first<T>(records: Seq<T>, wanted: spec_fn(T) -> bool, at: int)
    requires
        0 <= at < records.len(),
        wanted(records[at]),
    ensures
        exists|first: int| is_first(records, wanted, first),
    decreases at,
{
    if exists|j: int| 0 <= j < at && wanted(#[trigger] records[j]) {
        let j = choose|j: int| 0 <= j < at && wanted(#[trigger] records[j]);
        lemma_some_is_first(records, wanted, j);
    } else {
        assert(is_first(records, wanted, at));
    }
}

/// A record that was saved under its key is found under that key.
pub proof fn lemma_lookup_saved<T>(records: Seq<T>, wanted: spec_fn(T) -> bool, record: T)
    requires
        wanted(record),
    ensures
        lookup(upsert(records, wanted, record), wanted) == Some(record),
{
    lemma_position_is_first(records, wanted);
    let after = upsert(records, wanted, record);
    match position(records, wanted) {
        Some(at) => {
            assert(is_first(after, wanted, at));
            lemma_position_found(after, wanted, at);
        },
        None => {
            assert(is_first(after, wanted, records.len() as int));
            lemma_position_found(after, wanted, records.len() as int);
        },
    }
}

/// Saving a record under one key changes nothing of what is found under a
/// key that excludes it.
pub proof fn lemma_lookup_other<T>(
    records: Seq<T>,
    wanted: spec_fn(T) -> bool,
    record: T,
    other: spec_fn(T) -> bool,
)
    requires
        !other(record),
        forall|r: T| #[trigger] wanted(r) ==> !other(r),
    ensures
        lookup(upsert(records, wanted, record), other) == lookup(records, other),
{
    lemma_position_is_first(records, wanted);
    lemma_position_is_first(records, other);
    let after = upsert(records, wanted, record);
    match position(records, other) {
        Some(at) => {
            assert(after[at] == records[at]);
            assert forall|j: int| 0 <= j < at implies !other(#[trigger] after[j]) by {
                assert(!other(records[j]));
            }
            assert(is_first(after, other, at));
            lemma_position_found(after, other, at);
        },
        None => {
            assert forall|j: int| 0 <= j < after.len() implies !other(#[trigger] after[j]) by {
                if j < records.len() && after[j] == records[j] {
                    assert(!other(records[j]));
                }
            }
            lemma_position_none(after, other);
        },
    }
}

/// The selection of a list with one more record at its end.
pub proof fn lemma_filter_push<T>(records: Seq<T>, record: T, kept: spec_fn(T) -> bool)
    ensures
        records.push(record).filter(kept) == if kept(record) {
            records.filter(kept).push(record)
        } else {
            records.filter(kept)
        },
{
    reveal(Seq::filter);
    assert(records.push(record).drop_last() =~= records);
}

/// Where the first record of a kind stands once one more record is at the
/// end of the list.
pub proof fn lemma_position_push<T>(records: Seq<T>, record: T, wanted: spec_fn(T) -> bool)
    ensures
        position(records.push(record), wanted) == match position(records, wanted) {
            Some(at) => Some(at),
            None => if wanted(record) {
                Some(records.len() as int)
            } else {
                None
            },
        },
{
    lemma_position_is_first(records, wanted);
    let longer = records.push(record);
    match position(records, wanted) {
        Some(at) => {
            assert(is_first(longer, wanted, at)) by {
                assert forall|j: int| 0 <= j < at implies !wanted(#[trigger] longer[j]) by {
                    assert(longer[j] == records[j]);
                }
            }
            lemma_position_found(longer, wanted, at);
        },
        None => {
            if wanted(record) {
                assert(is_first(longer, wanted, records.len() as int)) by {
                    assert forall|j: int| 0 <= j < records.len() implies !wanted(
                        #[trigger] longer[j],
                    ) by {
                        assert(longer[j] == records[j]);
                    }
                }
                lemma_position_found(longer, wanted, records.len() as int);
            } else {
                assert forall|j: int| 0 <= j < longer.len() implies !wanted(
                    #[trigger] longer[j],
                ) by {
                    if j < records.len() {
                        assert(longer[j] == records[j]);
                    }
                }
                lemma_position_none(longer, wanted);
            }
        },
    }
}

/// A selection holds a record of a kind exactly if the list holds one,
/// where every record of that kind is selected.
pub proof fn lemma_position_in_filter<T>(
    records: Seq<T>,
    wanted: spec_fn(T) -> bool,
    kept: spec_fn(T) -> bool,
)
    requires
        forall|r: T| #[trigger] wanted(r) ==> kept(r),
    ensures
        position(records.filter(kept), wanted) is Some <==> position(records, wanted) is Some,
    decreases records.len(),
{
    reveal(Seq::filter);
    if records.len() == 0 {
        lemma_position_none(records, wanted);
        lemma_position_none(records.filter(kept), wanted);
    } else {
        let front = records.drop_last();
        assert(front.push(records.last()) =~= records);
        lemma_position_in_filter(front, wanted, kept);
        lemma_position_push(front, records.last(), wanted);
        lemma_filter_push(front, records.last(), kept);
        if kept(records.last()) {
            lemma_position_push(front.filter(kept), records.last(), wanted);
        }
    }
}

/// Saving a record and then selecting its group gives what selecting the
/// group and then saving the record gives: the record takes the place of
/// the one with its key, or comes last in its group.
pub proof fn lemma_filter_saved<T>(
    records: Seq<T>,
    wanted: spec_fn(T) -> bool,
    kept: spec_fn(T) -> bool,
    record: T,
)
    requires
        kept(record),
        forall|r: T| #[trigger] wanted(r) ==> kept(r),
    ensures
        upsert(records, wanted, record).filter(kept) == upsert(
            records.filter(kept),
            wanted,
            record,
        ),
    decreases records.len(),
{
    if records.len() == 0 {
        lemma_position_none(records, wanted);
        lemma_filter_push(records, record, kept);
        reveal(Seq::filter);
        lemma_position_none(records.filter(kept), wanted);
    } else {
        let front = records.drop_last();
        let last = records.last();
        assert(front.push(last) =~= records);
        lemma_position_push(front, last, wanted);
        lemma_position_is_first(front, wanted);
        lemma_position_in_filter(front, wanted, kept);
        lemma_position_in_filter(records, wanted, kept);
        lemma_filter_push(front, last, kept);
        match position(front, wanted) {
            Some(at) => {
                lemma_filter_saved(front, wanted, kept, record);
                assert(upsert(records, wanted, record) =~= upsert(front, wanted, record).push(
                    last,
                ));
                lemma_filter_push(upsert(front, wanted, record), last, kept);
                if kept(last) {
                    lemma_position_push(front.filter(kept), last, wanted);
                    lemma_position_is_first(front.filter(kept), wanted);
                    assert(upsert(front.filter(kept).push(last), wanted, record) =~= upsert(
                        front.filter(kept),
                        wanted,
                        record,
                    ).push(last));
                }
            },
            None => {
                if wanted(last) {
                    assert(upsert(records, wanted, record) =~= front.push(record));
                    lemma_filter_push(front, record, kept);
                    lemma_position_push(front.filter(kept), last, wanted);
                    assert(upsert(front.filter(kept).push(last), wanted, record)
                        =~= front.filter(kept).push(record));
                } else {
                    lemma_filter_push(records, record, kept);
                }
            },
        }
    }
}

/// Saving a record changes nothing of a group that neither it nor the
/// record in whose place it comes belongs to.
pub proof fn lemma_filter_other<T>(
    records: Seq<T>,
    wanted: spec_fn(T) -> bool,
    kept: spec_fn(T) -> bool,
    record: T,
)
    requires
        !kept(record),
        forall|r: T| #[trigger] wanted(r) ==> !kept(r),
    ensures
        upsert(records, wanted, record).filter(kept) == records.filter(kept),
    decreases records.len(),
{
    if records.len() == 0 {
        lemma_position_none(records, wanted);
        lemma_filter_push(records, record, kept);
    } else {
        let front = records.drop_last();
        let last = records.last();
        assert(front.push(last) =~= records);
        lemma_position_push(front, last, wanted);
        lemma_position_is_first(front, wanted);
        lemma_filter_push(front, last, kept);
        match position(front, wanted) {
            Some(at) => {
                lemma_filter_other(front, wanted, kept, record);
                assert(upsert(records, wanted, record) =~= upsert(front, wanted, record).push(
                    last,
                ));
                lemma_filter_push(upsert(front, wanted, record), last, kept);
            },
            None => {
                if wanted(last) {
                    assert(upsert(records, wanted, record) =~= front.push(record));
                    lemma_filter_push(front, record, kept);
                } else {
                    lemma_filter_push(records, record, kept);
                }
            },
        }
    }
}

/// The key of a device session: the remote device's identity key and the
/// session's identifier.
pub open spec fn is_device_session(
    sender_key: Seq<char>,
    session_id: Seq<char>,
) -> spec_fn(DeviceSessionView) -> bool {
    |session: DeviceSessionView|
        session.sender_key == sender_key && session.session_id == session_id
}

/// The sessions with one remote device.
pub open spec fn is_session_with(sender_key: Seq<char>) -> spec_fn(DeviceSessionView) -> bool {
    |session: DeviceSessionView| session.sender_key == sender_key
}

/// The key of an inbound group session: room, session and originating device.
pub open spec fn is_inbound_group_session(
    room_id: Seq<char>,
    session_id: Seq<char>,
    sender_key: Seq<char>,
) -> spec_fn(InboundGroupSessionView) -> bool {
    |session: InboundGroupSessionView|
        session.room_id == room_id && session.session_id == session_id && session.sender_key
            == sender_key
}

/// The key of an outbound group session: its room.
pub open spec fn is_outbound_group_session(room_id: Seq<char>) -> spec_fn(
    OutboundGroupSessionView,
) -> bool {
    |session: OutboundGroupSessionView| session.room_id == room_id
}

/// The key of a device identity: the user and the device's identifier.
pub open spec fn is_device(user_id: Seq<char>, device_id: Seq<char>) -> spec_fn(
    DeviceIdentityView,
) -> bool {
    |device: DeviceIdentityView| device.user_id == user_id && device.device_id == device_id
}

/// What a store holds.
pub struct StoreState {
    pub device_sessions: Seq<DeviceSessionView>,
    pub inbound_group_sessions: Seq<InboundGroupSessionView>,
    pub outbound_group_sessions: Seq<OutboundGroupSessionView>,
    pub devices: Seq<DeviceIdentityView>,
}

impl StoreState {
    /// A store that holds nothing.
    pub open spec fn empty() -> StoreState {
        StoreState {
            device_sessions: Seq::empty(),
            inbound_group_sessions: Seq::empty(),
            outbound_group_sessions: Seq::empty(),
            devices: Seq::empty(),
        }
    }

    /// The sessions with one remote device, in the order in which they were
    /// first saved.
    pub open spec fn sessions_with(self, sender_key: Seq<char>) -> Seq<DeviceSessionView> {
        self.device_sessions.filter(is_session_with(sender_key))
    }

    /// The session with a device that has the given identifier.
    pub open spec fn device_session(self, sender_key: Seq<char>, session_id: Seq<char>) -> Option<
        DeviceSessionView,
    > {
        lookup(self.device_sessions, is_device_session(sender_key, session_id))
    }

    /// The inbound session of a room, a session identifier and a sender.
    pub open spec fn inbound_group_session(
        self,
        room_id: Seq<char>,
        session_id: Seq<char>,
        sender_key: Seq<char>,
    ) -> Option<InboundGroupSessionView> {
        lookup(
            self.inbound_group_sessions,
            is_inbound_group_session(room_id, session_id, sender_key),
        )
    }

    /// The outbound session of a room.
    pub open spec fn outbound_group_session(self, room_id: Seq<char>) -> Option<
        OutboundGroupSessionView,
    > {
        lookup(self.outbound_group_sessions, is_outbound_group_session(room_id))
    }

    /// What is known of a device of a user.
    pub open spec fn device(self, user_id: Seq<char>, device_id: Seq<char>) -> Option<
        DeviceIdentityView,
    > {
        lookup(self.devices, is_device(user_id, device_id))
    }

    /// The state after a device session has been saved.
    pub open spec fn with_device_session(self, session: DeviceSessionView) -> StoreState {
        StoreState {
            device_sessions: upsert(
                self.device_sessions,
                is_device_session(session.sender_key, session.session_id),
                session,
            ),
            ..self
        }
    }

    /// The state after an inbound group session has been saved.
    pub open spec fn with_inbound_group_session(
        self,
        session: InboundGroupSessionView,
    ) -> StoreState {
        StoreState {
            inbound_group_sessions: upsert(
                self.inbound_group_sessions,
                is_inbound_group_session(session.room_id, session.session_id, session.sender_key),
                session,
            ),
            ..self
        }
    }

    /// The state after an outbound group session has been saved.
    pub open spec fn with_outbound_group_session(
        self,
        session: OutboundGroupSessionView,
    ) -> StoreState {
        StoreState {
            outbound_group_sessions: upsert(
                self.outbound_group_sessions,
                is_outbound_group_session(session.room_id),
                session,
            ),
            ..self
        }
    }

    /// The state after a device identity has been saved.
    pub open spec fn with_device(self, device: DeviceIdentityView) -> StoreState {
        StoreState {
            devices: upsert(self.devices, is_device(device.user_id, device.device_id), device),
            ..self
        }
    }
}

/// A store that holds nothing has no session with any device, and nothing
/// is found in it under any key.
pub proof fn law_empty_store_holds_nothing(
    sender_key: Seq<char>,
    session_id: Seq<char>,
    room_id: Seq<char>,
    user_id: Seq<char>,
    device_id: Seq<char>,
)
    ensures
        StoreState::empty().sessions_with(sender_key) == Seq::<DeviceSessionView>::empty(),
        StoreState::empty().device_session(sender_key, session_id) is None,
        StoreState::empty().inbound_group_session(room_id, session_id, sender_key) is None,
        StoreState::empty().outbound_group_session(room_id) is None,
        StoreState::empty().device(user_id, device_id) is None,
{
    reveal(Seq::filter);
    let state = StoreState::empty();
    lemma_position_none(state.device_sessions, is_device_session(sender_key, session_id));
    lemma_position_none(
        state.inbound_group_sessions,
        is_inbound_group_session(room_id, session_id, sender_key),
    );
    lemma_position_none(state.outbound_group_sessions, is_outbound_group_session(room_id));
    lemma_position_none(state.devices, is_device(user_id, device_id));
}

/// After a device session has been saved it is found under its key, and
/// among the sessions with its device it stands where the session of that
/// key stood, or last. The sessions with every other device are as before.
pub proof fn law_saved_device_session(
    state: StoreState,
    session: DeviceSessionView,
    other_device: Seq<char>,
)
    ensures
        state.with_device_session(session).device_session(session.sender_key, session.session_id)
            == Some(session),
        state.with_device_session(session).sessions_with(session.sender_key) == upsert(
            state.sessions_with(session.sender_key),
            is_device_session(session.sender_key, session.session_id),
            session,
        ),
        other_device != session.sender_key ==> state.with_device_session(session).sessions_with(
            other_device,
        ) == state.sessions_with(other_device),
        state.with_device_session(session).inbound_group_sessions == state.inbound_group_sessions,
        state.with_device_session(session).outbound_group_sessions
            == state.outbound_group_sessions,
        state.with_device_session(session).devices == state.devices,
{
    let key = is_device_session(session.sender_key, session.session_id);
    lemma_lookup_saved(state.device_sessions, key, session);
    lemma_filter_saved(state.device_sessions, key, is_session_with(session.sender_key), session);
    if other_device != session.sender_key {
        lemma_filter_other(state.device_sessions, key, is_session_with(other_device), session);
    }
}

/// A device that the store holds a session of under some key is a device
/// that there are sessions with, and the other way round.
pub proof fn law_sessions_with_a_device(
    state: StoreState,
    sender_key: Seq<char>,
    session_id: Seq<char>,
)
    ensures
        state.device_session(sender_key, session_id) is Some ==> state.sessions_with(
            sender_key,
        ).len() > 0,
        state.device_session(sender_key, session_id) == lookup(
            state.sessions_with(sender_key),
            is_device_session(sender_key, session_id),
        ),
{
    let key = is_device_session(sender_key, session_id);
    let group = is_session_with(sender_key);
    lemma_position_in_filter(state.device_sessions, key, group);
    lemma_position_is_first(state.device_sessions, key);
    lemma_position_is_first(state.sessions_with(sender_key), key);
    lemma_first_in_filter(state.device_sessions, key, group);
}

/// The first record of a kind in a selection is the first one in the list.
proof fn lemma_first_in_filter<T>(
    records: Seq<T>,
    wanted: spec_fn(T) -> bool,
    kept: spec_fn(T) -> bool,
)
    requires
        forall|r: T| #[trigger] wanted(r) ==> kept(r),
    ensures
        lookup(records.filter(kept), wanted) == lookup(records, wanted),
    decreases records.len(),
{
    reveal(Seq::filter);
    if records.len() == 0 {
        lemma_position_none(records, wanted);
        lemma_position_none(records.filter(kept), wanted);
    } else {
        let front = records.drop_last();
        let last = records.last();
        assert(front.push(last) =~= records);
        lemma_first_in_filter(front, wanted, kept);
        lemma_position_in_filter(front, wanted, kept);
        lemma_position_push(front, last, wanted);
        lemma_filter_push(front, last, kept);
        lemma_position_is_first(front, wanted);
        lemma_position_is_first(front.filter(kept), wanted);
        if kept(last) {
            lemma_position_push(front.filter(kept), last, wanted);
        }
    }
}

/// Saving a group session changes nothing of what is held for another room,
/// session or sender, and a saved session is found under its key.
pub proof fn law_saved_group_sessions(
    state: StoreState,
    inbound: InboundGroupSessionView,
    outbound: OutboundGroupSessionView,
    room_id: Seq<char>,
    session_id: Seq<char>,
    sender_key: Seq<char>,
)
    ensures
        state.with_inbound_group_session(inbound).inbound_group_session(
            inbound.room_id,
            inbound.session_id,
            inbound.sender_key,
        ) == Some(inbound),
        (room_id != inbound.room_id || session_id != inbound.session_id || sender_key
            != inbound.sender_key) ==> state.with_inbound_group_session(
            inbound,
        ).inbound_group_session(room_id, session_id, sender_key) == state.inbound_group_session(
            room_id,
            session_id,
            sender_key,
        ),
        state.with_outbound_group_session(outbound).outbound_group_session(outbound.room_id)
            == Some(outbound),
        room_id != outbound.room_id ==> state.with_outbound_group_session(
            outbound,
        ).outbound_group_session(room_id) == state.outbound_group_session(room_id),
        state.with_outbound_group_session(outbound).inbound_group_sessions
            == state.inbound_group_sessions,
        state.with_inbound_group_session(inbound).outbound_group_sessions
            == state.outbound_group_sessions,
{
    let inbound_key = is_inbound_group_session(
        inbound.room_id,
        inbound.session_id,
        inbound.sender_key,
    );
    lemma_lookup_saved(state.inbound_group_sessions, inbound_key, inbound);
    if room_id != inbound.room_id || session_id != inbound.session_id || sender_key
        != inbound.sender_key {
        lemma_lookup_other(
            state.inbound_group_sessions,
            inbound_key,
            inbound,
            is_inbound_group_session(room_id, session_id, sender_key),
        );
    }
    let outbound_key = is_outbound_group_session(outbound.room_id);
    lemma_lookup_saved(state.outbound_group_sessions, outbound_key, outbound);
    if room_id != outbound.room_id {
        lemma_lookup_other(
            state.outbound_group_sessions,
            outbound_key,
            outbound,
            is_outbound_group_session(room_id),
        );
    }
}

/// The contract of a store. A read that succeeds returns what the state
/// holds. A write that succeeds has saved the record; one that fails has
/// changed nothing.
pub trait CryptoStore {
    /// What the store holds.
    spec fn state(&self) -> StoreState;

    /// Whether no operation of this store ever fails. A store in memory can
    /// say so; one that writes to a disk or talks to another process cannot.
    spec fn infallible(&self) -> bool;

    fn get_device_sessions(&self, sender_key: &str) -> (r: Result<
        Vec<DeviceSession>,
        CryptoStoreError,
    >)
        ensures
            self.infallible() ==> r is Ok,
            r matches Ok(sessions) ==> views_of(sessions@) == self.state().sessions_with(
                sender_key@,
            ),
    ;

    fn get_device_session(&self, sender_key: &str, session_id: &str) -> (r: Result<
        Option<DeviceSession>,
        CryptoStoreError,
    >)
        ensures
            self.infallible() ==> r is Ok,
            r matches Ok(found) ==> match self.state().device_session(sender_key@, session_id@) {
                Some(session) => found matches Some(f) && f@ == session,
                None => found is None,
            },
    ;

    fn save_device_session(&mut self, session: &DeviceSession) -> (r: Result<(), CryptoStoreError>)
        ensures
            old(self).infallible() ==> r is Ok,
            final(self).infallible() == old(self).infallible(),
            r is Ok ==> final(self).state() == old(self).state().with_device_session(session@),
            r is Err ==> final(self).state() == old(self).state(),
    ;

    fn get_inbound_group_session(&self, room_id: &str, session_id: &str, sender_key: &str) -> (r:
        Result<Option<InboundGroupSession>, CryptoStoreError>)
        ensures
            self.infallible() ==> r is Ok,
            r matches Ok(found) ==> match self.state().inbound_group_session(
                room_id@,
                session_id@,
                sender_key@,
            ) {
                Some(session) => found matches Some(f) && f@ == session,
                None => found is None,
            },
    ;

    fn save_inbound_group_session(&mut self, session: &InboundGroupSession) -> (r: Result<
        (),
        CryptoStoreError,
    >)
        ensures
            old(self).infallible() ==> r is Ok,
            final(self).infallible() == old(self).infallible(),
            r is Ok ==> final(self).state() == old(self).state().with_inbound_group_session(
                session@,
            ),
            r is Err ==> final(self).state() == old(self).state(),
    ;

    fn get_outbound_group_session(&self, room_id: &str) -> (r: Result<
        Option<OutboundGroupSession>,
        CryptoStoreError,
    >)
        ensures
            self.infallible() ==> r is Ok,
            r matches Ok(found) ==> match self.state().outbound_group_session(room_id@) {
                Some(session) => found matches Some(f) && f@ == session,
                None => found is None,
            },
    ;

    fn save_outbound_group_session(&mut self, session: &OutboundGroupSession) -> (r: Result<
        (),
        CryptoStoreError,
    >)
        ensures
            old(self).infallible() ==> r is Ok,
            final(self).infallible() == old(self).infallible(),
            r is Ok ==> final(self).state() == old(self).state().with_outbound_group_session(
                session@,
            ),
            r is Err ==> final(self).state() == old(self).state(),
    ;

    fn get_device(&self, user_id: &str, device_id: &str) -> (r: Result<
        Option<DeviceIdentity>,
        CryptoStoreError,
    >)
        ensures
            self.infallible() ==> r is Ok,
            r matches Ok(found) ==> match self.state().device(user_id@, device_id@) {
                Some(device) => found matches Some(f) && f@ == device,
                None => found is None,
            },
    ;

    fn save_device(&mut self, device: &DeviceIdentity) -> (r: Result<(), CryptoStoreError>)
        ensures
            old(self).infallible() ==> r is Ok,
            final(self).infallible() == old(self).infallible(),
            r is Ok ==> final(self).state() == old(self).state().with_device(device@),
            r is Err ==> final(self).state() == old(self).state(),
    ;
}

/// A store that keeps its records in memory. It never fails.
#[derive(Debug)]
pub struct MemoryStore {
    device_sessions: Vec<DeviceSession>,
    inbound_group_sessions: Vec<InboundGroupSession>,
    outbound_group_sessions: Vec<OutboundGroupSession>,
    devices: Vec<DeviceIdentity>,
}

/// The place of the first session with the given key.
fn find_device_session(sessions: &Vec<DeviceSession>, sender_key: &String, session_id: &String) -> (r:
    Option<usize>)
    ensures
        match r {
            Some(at) => position(views_of(sessions@), is_device_session(sender_key@, session_id@))
                == Some(at as int) && at < sessions.len(),
            None => position(views_of(sessions@), is_device_session(sender_key@, session_id@))
                is None,
        },
{
    let ghost wanted = is_device_session(sender_key@, session_id@);
    let mut i: usize = 0;
    while i < sessions.len()
        invariant
            i <= sessions.len(),
            wanted == is_device_session(sender_key@, session_id@),
            forall|j: int| 0 <= j < i ==> !wanted(#[trigger] views_of(sessions@)[j]),
        decreases sessions.len() - i,
    {
        if sessions[i].sender_key == *sender_key && sessions[i].session_id == *session_id {
            proof {
                assert(wanted(views_of(sessions@)[i as int]));
                lemma_position_found(views_of(sessions@), wanted, i as int);
            }
            return Some(i);
        }
        i = i + 1;
    }
    proof {
        lemma_position_none(views_of(sessions@), wanted);
    }
    None
}

/// The place of the first inbound group session with the given key.
fn find_inbound_group_session(
    sessions: &Vec<InboundGroupSession>,
    room_id: &String,
    session_id: &String,
    sender_key: &String,
) -> (r: Option<usize>)
    ensures
        match r {
            Some(at) => position(
                views_of(sessions@),
                is_inbound_group_session(room_id@, session_id@, sender_key@),
            ) == Some(at as int) && at < sessions.len(),
            None => position(
                views_of(sessions@),
                is_inbound_group_session(room_id@, session_id@, sender_key@),
            ) is None,
        },
{
    let ghost wanted = is_inbound_group_session(room_id@, session_id@, sender_key@);
    let mut i: usize = 0;
    while i < sessions.len()
        invariant
            i <= sessions.len(),
            wanted == is_inbound_group_session(room_id@, session_id@, sender_key@),
            forall|j: int| 0 <= j < i ==> !wanted(#[trigger] views_of(sessions@)[j]),
        decreases sessions.len() - i,
    {
        if sessions[i].room_id == *room_id && sessions[i].session_id == *session_id
            && sessions[i].sender_key == *sender_key {
            proof {
                assert(wanted(views_of(sessions@)[i as int]));
                lemma_position_found(views_of(sessions@), wanted, i as int);
            }
            return Some(i);
        }
        i = i + 1;
    }
    proof {
        lemma_position_none(views_of(sessions@), wanted);
    }
    None
}

/// The place of the first outbound group session of the given room.
fn find_outbound_group_session(sessions: &Vec<OutboundGroupSession>, room_id: &String) -> (r:
    Option<usize>)
    ensures
        match r {
            Some(at) => position(views_of(sessions@), is_outbound_group_session(room_id@)) == Some(
                at as int,
            ) && at < sessions.len(),
            None => position(views_of(sessions@), is_outbound_group_session(room_id@)) is None,
        },
{
    let ghost wanted = is_outbound_group_session(room_id@);
    let mut i: usize = 0;
    while i < sessions.len()
        invariant
            i <= sessions.len(),
            wanted == is_outbound_group_session(room_id@),
            forall|j: int| 0 <= j < i ==> !wanted(#[trigger] views_of(sessions@)[j]),
        decreases sessions.len() - i,
    {
        if sessions[i].room_id == *room_id {
            proof {
                assert(wanted(views_of(sessions@)[i as int]));
                lemma_position_found(views_of(sessions@), wanted, i as int);
            }
            return Some(i);
        }
        i = i + 1;
    }
    proof {
        lemma_position_none(views_of(sessions@), wanted);
    }
    None
}

/// The place of the first identity of the given device.
fn find_device(devices: &Vec<DeviceIdentity>, user_id: &String, device_id: &String) -> (r: Option<
    usize,
>)
    ensures
        match r {
            Some(at) => position(views_of(devices@), is_device(user_id@, device_id@)) == Some(
                at as int,
            ) && at < devices.len(),
            None => position(views_of(devices@), is_device(user_id@, device_id@)) is None,
        },
{
    let ghost wanted = is_device(user_id@, device_id@);
    let mut i: usize = 0;
    while i < devices.len()
        invariant
            i <= devices.len(),
            wanted == is_device(user_id@, device_id@),
            forall|j: int| 0 <= j < i ==> !wanted(#[trigger] views_of(devices@)[j]),
        decreases devices.len() - i,
    {
        if devices[i].user_id == *user_id && devices[i].device_id == *device_id {
            proof {
                assert(wanted(views_of(devices@)[i as int]));
                lemma_position_found(views_of(devices@), wanted, i as int);
            }
            return Some(i);
        }
        i = i + 1;
    }
    proof {
        lemma_position_none(views_of(devices@), wanted);
    }
    None
}

impl MemoryStore {
    /// A store that holds nothing.
    pub fn new() -> (r: Self)
        ensures
            r.state() == StoreState::empty(),
    {
        let r = MemoryStore {
            device_sessions: Vec::new(),
            inbound_group_sessions: Vec::new(),
            outbound_group_sessions: Vec::new(),
            devices: Vec::new(),
        };
        assert(views_of(r.device_sessions@) =~= Seq::empty());
        assert(views_of(r.inbound_group_sessions@) =~= Seq::empty());
        assert(views_of(r.outbound_group_sessions@) =~= Seq::empty());
        assert(views_of(r.devices@) =~= Seq::empty());
        r
    }
}

impl CryptoStore for MemoryStore {
    closed spec fn state(&self) -> StoreState {
        StoreState {
            device_sessions: views_of(self.device_sessions@),
            inbound_group_sessions: views_of(self.inbound_group_sessions@),
            outbound_group_sessions: views_of(self.outbound_group_sessions@),
            devices: views_of(self.devices@),
        }
    }

    open spec fn infallible(&self) -> bool {
        true
    }

    fn get_device_sessions(&self, sender_key: &str) -> (r: Result<
        Vec<DeviceSession>,
        CryptoStoreError,
    >)
    {
        let wanted_key: String = sender_key.to_owned();
        let ghost wanted = is_session_with(sender_key@);
        let ghost all = views_of(self.device_sessions@);
        let mut found: Vec<DeviceSession> = Vec::new();
        let mut i: usize = 0;
        proof {
            reveal(Seq::filter);
            assert(all.take(0) =~= Seq::empty());
            assert(views_of(found@) =~= Seq::empty());
        }
        while i < self.device_sessions.len()
            invariant
                i <= self.device_sessions.len(),
                wanted_key@ == sender_key@,
                wanted == is_session_with(sender_key@),
                all == views_of(self.device_sessions@),
                views_of(found@) == all.take(i as int).filter(wanted),
            decreases self.device_sessions.len() - i,
        {
            proof {
                reveal(Seq::filter);
                assert(all.take(i + 1).drop_last() =~= all.take(i as int));
            }
            if self.device_sessions[i].sender_key == wanted_key {
                let ghost before = found@;
                found.push(self.device_sessions[i].clone());
                assert(views_of(found@) =~= views_of(before).push(all[i as int]));
            }
            i = i + 1;
        }
        assert(all.take(self.device_sessions.len() as int) =~= all);
        Ok(found)
    }

    fn get_device_session(&self, sender_key: &str, session_id: &str) -> (r: Result<
        Option<DeviceSession>,
        CryptoStoreError,
    >)
    {
        let sender_key: String = sender_key.to_owned();
        let session_id: String = session_id.to_owned();
        match find_device_session(&self.device_sessions, &sender_key, &session_id) {
            Some(at) => Ok(Some(self.device_sessions[at].clone())),
            None => Ok(None),
        }
    }

    fn save_device_session(&mut self, session: &DeviceSession) -> (r: Result<(), CryptoStoreError>)
    {
        let ghost before = views_of(self.device_sessions@);
        match find_device_session(&self.device_sessions, &session.sender_key, &session.session_id) {
            Some(at) => {
                self.device_sessions.set(at, session.clone());
                assert(views_of(self.device_sessions@) =~= before.update(at as int, session@));
            },
            None => {
                self.device_sessions.push(session.clone());
                assert(views_of(self.device_sessions@) =~= before.push(session@));
            },
        }
        Ok(())
    }

    fn get_inbound_group_session(&self, room_id: &str, session_id: &str, sender_key: &str) -> (r:
        Result<Option<InboundGroupSession>, CryptoStoreError>)
    {
        let room_id: String = room_id.to_owned();
        let session_id: String = session_id.to_owned();
        let sender_key: String = sender_key.to_owned();
        match find_inbound_group_session(
            &self.inbound_group_sessions,
            &room_id,
            &session_id,
            &sender_key,
        ) {
            Some(at) => Ok(Some(self.inbound_group_sessions[at].clone())),
            None => Ok(None),
        }
    }

    fn save_inbound_group_session(&mut self, session: &InboundGroupSession) -> (r: Result<
        (),
        CryptoStoreError,
    >)
    {
        let ghost before = views_of(self.inbound_group_sessions@);
        match find_inbound_group_session(
            &self.inbound_group_sessions,
            &session.room_id,
            &session.session_id,
            &session.sender_key,
        ) {
            Some(at) => {
                self.inbound_group_sessions.set(at, session.clone());
                assert(views_of(self.inbound_group_sessions@) =~= before.update(
                    at as int,
                    session@,
                ));
            },
            None => {
                self.inbound_group_sessions.push(session.clone());
                assert(views_of(self.inbound_group_sessions@) =~= before.push(session@));
            },
        }
        Ok(())
    }

    fn get_outbound_group_session(&self, room_id: &str) -> (r: Result<
        Option<OutboundGroupSession>,
        CryptoStoreError,
    >)
    {
        let room_id: String = room_id.to_owned();
        match find_outbound_group_session(&self.outbound_group_sessions, &room_id) {
            Some(at) => Ok(Some(self.outbound_group_sessions[at].clone())),
            None => Ok(None),
        }
    }

    fn save_outbound_group_session(&mut self, session: &OutboundGroupSession) -> (r: Result<
        (),
        CryptoStoreError,
    >)
    {
        let ghost before = views_of(self.outbound_group_sessions@);
        match find_outbound_group_session(&self.outbound_group_sessions, &session.room_id) {
            Some(at) => {
                self.outbound_group_sessions.set(at, session.clone());
                assert(views_of(self.outbound_group_sessions@) =~= before.update(
                    at as int,
                    session@,
                ));
            },
            None => {
                self.outbound_group_sessions.push(session.clone());
                assert(views_of(self.outbound_group_sessions@) =~= before.push(session@));
            },
        }
        Ok(())
    }

    fn get_device(&self, user_id: &str, device_id: &str) -> (r: Result<
        Option<DeviceIdentity>,
        CryptoStoreError,
    >)
    {
        let user_id: String = user_id.to_owned();
        let device_id: String = device_id.to_owned();
        match find_device(&self.devices, &user_id, &device_id) {
            Some(at) => Ok(Some(self.devices[at].clone())),
            None => Ok(None),
        }
    }

    fn save_device(&mut self, device: &DeviceIdentity) -> (r: Result<(), CryptoStoreError>)
    {
        let ghost before = views_of(self.devices@);
        match find_device(&self.devices, &device.user_id, &device.device_id) {
            Some(at) => {
                self.devices.set(at, device.clone());
                assert(views_of(self.devices@) =~= before.update(at as int, device@));
            },
            None => {
                self.devices.push(device.clone());
                assert(views_of(self.devices@) =~= before.push(device@));
            },
        }
        Ok(())
    }
}

} // verus!