//! The manager of the pairwise sessions with other devices.
//!
//! The ratchet itself is a cryptographic primitive that the caller runs. An
//! operation therefore comes in steps. The manager reads the store and says
//! which session the primitive is to be run with; the caller runs it on a
//! copy of that session's ratchet state and reports what came of it; the
//! manager then decides what is written to the store and what is returned.
//! The advanced ratchet state is written before a plaintext or a ciphertext
//! is handed out, and nothing is written for an operation that fails or is
//! given up.

use vstd::prelude::*;
use crate::error::{
    CryptoStoreError, CryptoStoreErrorView, EventError, EventErrorView, OlmError, OlmErrorView,
    OlmSessionError, olm_store_failure,
};
use crate::session::{DeviceSession, DeviceSessionView, optional_view, result_view, views_of};
use crate::store::{
    CryptoStore, StoreState, is_device_session, law_saved_device_session,
    law_sessions_with_a_device, lemma_lookup_saved, lemma_position_none,
};

verus! {

/// The algorithm that pairwise messages are encrypted with.
pub open spec fn olm_algorithm() -> Seq<char> {
    "m.olm.v1.curve25519-aes-sha2"@
}

/// An encrypted message between two devices.
#[derive(Debug, PartialEq, Eq)]
pub struct OlmMessage {
    /// The algorithm that the message says it was encrypted with.
    pub algorithm: String,
    /// The identity key of the device that encrypted the message.
    pub sender_key: String,
    /// 0 for a message that establishes a session, 1 for any other.
    pub message_type: u64,
    pub body: String,
}

/// An [`OlmMessage`], its texts taken as sequences of characters.
pub struct OlmMessageView {
    pub algorithm: Seq<char>,
    pub sender_key: Seq<char>,
    pub message_type: u64,
    pub body: Seq<char>,
}

impl View for OlmMessage {
    type V = OlmMessageView;

    open spec fn view(&self) -> OlmMessageView {
        OlmMessageView {
            algorithm: self.algorithm@,
            sender_key: self.sender_key@,
            message_type: self.message_type,
            body: self.body@,
        }
    }
}

/// The two kinds of pairwise messages.
#[derive(Debug, Clone, Copy, PartialEq, Eq, Structural)]
pub enum MessageKind {
    /// The initial message, which establishes a session.
    PreKey,
    Normal,
}

/// The kind of a message, or why it cannot be handled: another algorithm
/// than the expected one, or a type that is neither 0 nor 1.
pub open spec fn message_kind(message: OlmMessageView) -> Result<MessageKind, EventErrorView> {
    if message.algorithm != olm_algorithm() {
        Err(EventErrorView::UnsupportedAlgorithm)
    } else if message.message_type == 0 {
        Ok(MessageKind::PreKey)
    } else if message.message_type == 1 {
        Ok(MessageKind::Normal)
    } else {
        Err(EventErrorView::UnsupportedOlmType)
    }
}

/// Checks the envelope of a message.
pub fn classify(message: &OlmMessage) -> (r: Result<MessageKind, EventError>)
    ensures
        match r {
            Ok(kind) => message_kind(message@) == Ok::<MessageKind, EventErrorView>(kind),
            Err(error) => message_kind(message@) == Err::<MessageKind, EventErrorView>(error@),
        },
{
    let expected: String = "m.olm.v1.curve25519-aes-sha2".to_owned();
    if message.algorithm != expected {
        Err(EventError::UnsupportedAlgorithm)
    } else if message.message_type == 0 {
        Ok(MessageKind::PreKey)
    } else if message.message_type == 1 {
        Ok(MessageKind::Normal)
    } else {
        Err(EventError::UnsupportedOlmType)
    }
}

/// Whether the session at `at` is the one used last: none was used later,
/// and of those used at the same time it comes first.
pub open spec fn is_most_recent(sessions: Seq<DeviceSessionView>, at: int) -> bool {
    &&& 0 <= at < sessions.len()
    &&& forall|j: int|
        0 <= j < sessions.len() ==> (#[trigger] sessions[j]).last_use_time
            <= sessions[at].last_use_time
    &&& forall|j: int|
        0 <= j < at ==> (#[trigger] sessions[j]).last_use_time < sessions[at].last_use_time
}

/// The place of the session that was used last, if there is any session.
pub open spec fn most_recent(sessions: Seq<DeviceSessionView>) -> Option<int> {
    if exists|at: int| is_most_recent(sessions, at) {
        Some(choose|at: int| is_most_recent(sessions, at))
    } else {
        None
    }
}

/// No two sessions of a list are the one used last.
pub proof fn lemma_most_recent_is_unique(sessions: Seq<DeviceSessionView>, at: int)
    requires
        is_most_recent(sessions, at),
    ensures
        most_recent(sessions) == Some(at),
{
    let chosen = choose|at: int| is_most_recent(sessions, at);
    if chosen < at {
        assert(sessions[chosen].last_use_time < sessions[at].last_use_time);
        assert(sessions[at].last_use_time <= sessions[chosen].last_use_time);
    } else if at < chosen {
        assert(sessions[at].last_use_time < sessions[chosen].last_use_time);
        assert(sessions[chosen].last_use_time <= sessions[at].last_use_time);
    }
}

/// Finds the session that was used last.
pub fn find_most_recent(sessions: &Vec<DeviceSession>) -> (r: Option<usize>)
    ensures
        match r {
            Some(at) => at < sessions.len() && is_most_recent(views_of(sessions@), at as int),
            None => sessions.len() == 0,
        },
        optional_place(r) == most_recent(views_of(sessions@)),
{
    if sessions.len() == 0 {
        return None;
    }
    let mut best: usize = 0;
    let mut i: usize = 1;
    while i < sessions.len()
        invariant
            1 <= i <= sessions.len(),
            best < i,
            forall|j: int|
                0 <= j < i ==> (#[trigger] sessions@[j]).last_use_time
                    <= sessions@[best as int].last_use_time,
            forall|j: int|
                0 <= j < best ==> (#[trigger] sessions@[j]).last_use_time
                    < sessions@[best as int].last_use_time,
        decreases sessions.len() - i,
    {
        if sessions[i].last_use_time > sessions[best].last_use_time {
            best = i;
        }
        i = i + 1;
    }
    proof {
        let views = views_of(sessions@);
        assert forall|j: int| 0 <= j < views.len() implies (#[trigger] views[j]).last_use_time
            <= views[best as int].last_use_time by {
            assert(sessions@[j].last_use_time <= sessions@[best as int].last_use_time);
        }
        assert forall|j: int| 0 <= j < best implies (#[trigger] views[j]).last_use_time
            < views[best as int].last_use_time by {
            assert(sessions@[j].last_use_time < sessions@[best as int].last_use_time);
        }
        lemma_most_recent_is_unique(views, best as int);
    }
    Some(best)
}

/// A place in a list, as a mathematical integer.
pub open spec fn optional_place(place: Option<usize>) -> Option<int> {
    match place {
        Some(at) => Some(at as int),
        None => None,
    }
}

/// What the sessions that were tried so far have said against a message.
#[derive(Debug, Clone, Copy, PartialEq, Eq, Structural)]
pub struct Rejections {
    /// The failure of the session that was tried last.
    pub last: OlmSessionError,
    /// Whether every session that rejected the message has by now failed as
    /// often in a row as the manager tolerates.
    pub all_wedged: bool,
}

/// A decryption under way: what is left to try, and what has failed.
#[derive(Debug, PartialEq, Eq)]
pub struct Decryption {
    /// The identity key of the device that sent the message.
    pub sender_key: String,
    /// Whether the message is one that establishes a session.
    pub pre_key: bool,
    /// The sessions with the device that have not been tried.
    pub remaining: Vec<DeviceSession>,
    pub rejections: Option<Rejections>,
}

/// A [`Decryption`] as a mathematical value.
pub struct DecryptionView {
    pub sender_key: Seq<char>,
    pub pre_key: bool,
    pub remaining: Seq<DeviceSessionView>,
    pub rejections: Option<Rejections>,
}

impl View for Decryption {
    type V = DecryptionView;

    open spec fn view(&self) -> DecryptionView {
        DecryptionView {
            sender_key: self.sender_key@,
            pre_key: self.pre_key,
            remaining: views_of(self.remaining@),
            rejections: self.rejections,
        }
    }
}

/// What the primitive made of a message with one session.
#[derive(Debug, PartialEq, Eq)]
pub enum Attempt {
    /// The session decrypted the message; `ratchet` is its state afterwards.
    Decrypted { ratchet: Vec<u8>, plaintext: String },
    /// The message establishes a session, and not this one.
    NotMatching,
    /// The session failed to decrypt the message.
    Rejected(OlmSessionError),
}

/// An [`Attempt`] as a mathematical value.
pub enum AttemptView {
    Decrypted { ratchet: Seq<u8>, plaintext: Seq<char> },
    NotMatching,
    Rejected(OlmSessionError),
}

impl View for Attempt {
    type V = AttemptView;

    open spec fn view(&self) -> AttemptView {
        match self {
            Attempt::Decrypted { ratchet, plaintext } => AttemptView::Decrypted {
                ratchet: ratchet@,
                plaintext: plaintext@,
            },
            Attempt::NotMatching => AttemptView::NotMatching,
            Attempt::Rejected(error) => AttemptView::Rejected(*error),
        }
    }
}

/// What is to happen next in a decryption.
#[derive(Debug)]
pub enum DecryptStep {
    /// The primitive is to be run with `session` on the message, and
    /// [`DeviceSessionManager::after_attempt`] told what came of it.
    Attempt { session: DeviceSession, rest: Decryption },
    /// No session matches the message, which establishes one: the primitive
    /// is to create it, and [`DeviceSessionManager::after_establish`] told
    /// what came of it.
    Establish { sender_key: String },
    /// The decryption has ended, with the plaintext or a failure.
    Done(Result<String, OlmError>),
}

/// A [`DecryptStep`] as a mathematical value.
pub enum DecryptStepView {
    Attempt { session: DeviceSessionView, rest: DecryptionView },
    Establish { sender_key: Seq<char> },
    Done(Result<Seq<char>, OlmErrorView>),
}

impl View for DecryptStep {
    type V = DecryptStepView;

    open spec fn view(&self) -> DecryptStepView {
        match self {
            DecryptStep::Attempt { session, rest } => DecryptStepView::Attempt {
                session: session@,
                rest: rest@,
            },
            DecryptStep::Establish { sender_key } => DecryptStepView::Establish {
                sender_key: sender_key@,
            },
            DecryptStep::Done(Ok(plaintext)) => DecryptStepView::Done(Ok(plaintext@)),
            DecryptStep::Done(Err(error)) => DecryptStepView::Done(Err(error@)),
        }
    }
}

/// Whether a decryption has ended with a failure of the store.
pub open spec fn store_failed(step: DecryptStepView) -> bool {
    step matches DecryptStepView::Done(result) && olm_store_failure(result)
}

/// How a decryption ends once no session is left to try. Where a session
/// rejected the message, that failure is reported, or that the device is
/// wedged. Where none did, a message that establishes a session has one
/// created for it, and any other message finds no session.
pub open spec fn conclusion(rest: DecryptionView) -> DecryptStepView {
    match rest.rejections {
        Some(rejections) => if rejections.all_wedged {
            DecryptStepView::Done(Err(OlmErrorView::SessionWedged))
        } else {
            DecryptStepView::Done(Err(OlmErrorView::OlmSession(rejections.last)))
        },
        None => if rest.pre_key {
            DecryptStepView::Establish { sender_key: rest.sender_key }
        } else {
            DecryptStepView::Done(Err(OlmErrorView::MissingSession))
        },
    }
}

/// The next step of a decryption: the session that was used last among
/// those not tried is tried next; with none left, the decryption concludes.
pub open spec fn next_step_of(rest: DecryptionView) -> DecryptStepView {
    match most_recent(rest.remaining) {
        Some(at) => DecryptStepView::Attempt {
            session: rest.remaining[at],
            rest: DecryptionView { remaining: rest.remaining.remove(at), ..rest },
        },
        None => conclusion(rest),
    }
}

/// Decides the next step of a decryption.
pub fn next_step(rest: Decryption) -> (step: DecryptStep)
    ensures
        step@ == next_step_of(rest@),
{
    let mut rest = rest;
    match find_most_recent(&rest.remaining) {
        Some(at) => {
            let ghost before = rest.remaining@;
            let session = rest.remaining.remove(at);
            assert(views_of(rest.remaining@) =~= views_of(before).remove(at as int));
            DecryptStep::Attempt { session, rest }
        },
        None => match rest.rejections {
            Some(rejections) => if rejections.all_wedged {
                DecryptStep::Done(Err(OlmError::SessionWedged))
            } else {
                DecryptStep::Done(Err(OlmError::OlmSession(rejections.last)))
            },
            None => if rest.pre_key {
                DecryptStep::Establish { sender_key: rest.sender_key }
            } else {
                DecryptStep::Done(Err(OlmError::MissingSession))
            },
        },
    }
}

/// How a decryption of `message` starts, given the sessions with its sender:
/// with the failure of its envelope, or with the first step.
pub open spec fn first_step_of(
    message: OlmMessageView,
    sessions: Seq<DeviceSessionView>,
) -> DecryptStepView {
    match message_kind(message) {
        Err(error) => DecryptStepView::Done(Err(OlmErrorView::EventError(error))),
        Ok(kind) => next_step_of(
            DecryptionView {
                sender_key: message.sender_key,
                pre_key: kind == MessageKind::PreKey,
                remaining: sessions,
                rejections: None,
            },
        ),
    }
}

/// Starts a decryption of `message` with the sessions that the store holds
/// for its sender.
pub fn first_step(message: &OlmMessage, sessions: Vec<DeviceSession>) -> (step: DecryptStep)
    ensures
        step@ == first_step_of(message@, views_of(sessions@)),
{
    match classify(message) {
        Err(error) => DecryptStep::Done(Err(OlmError::EventError(error))),
        Ok(kind) => next_step(
            Decryption {
                sender_key: message.sender_key.clone(),
                pre_key: kind == MessageKind::PreKey,
                remaining: sessions,
                rejections: None,
            },
        ),
    }
}

/// One more failure, up to the largest number that can be counted.
pub open spec fn one_more(failures: u32) -> u32 {
    if failures < u32::MAX {
        (failures + 1) as u32
    } else {
        failures
    }
}

/// The later of two times.
pub open spec fn later(a: u64, b: u64) -> u64 {
    if a >= b {
        a
    } else {
        b
    }
}

/// A stored session after its ratchet has been advanced at time `now`: the
/// new ratchet state, one generation further, used no earlier than before.
pub open spec fn advanced(
    stored: DeviceSessionView,
    ratchet: Seq<u8>,
    now: u64,
) -> DeviceSessionView {
    DeviceSessionView {
        ratchet,
        last_use_time: later(stored.last_use_time, now),
        generation: (stored.generation + 1) as u64,
        ..stored
    }
}

/// Whether an advance that was computed from the copy `used` may be written
/// over what the store holds now: only if the store still holds the
/// generation that the copy was taken at.
pub open spec fn still_current(stored: Option<DeviceSessionView>, used: DeviceSessionView) -> bool {
    stored matches Some(s) && s.generation == used.generation
}

/// What is written and what happens next when the primitive reports on an
/// attempt with `session`, a copy of what the store held; `stored` is what
/// the store holds now under the same key.
///
/// A session that does not match is passed over. A rejection is counted
/// against the stored session, and the next session is tried. A decryption
/// is accepted if the store still holds the generation that was used and
/// the generations are not used up: the advanced session is written, with no
/// failure held against it any more, and the plaintext handed out. Otherwise
/// nothing is written and the decryption fails.
pub open spec fn judgement(
    session: DeviceSessionView,
    rest: DecryptionView,
    attempt: AttemptView,
    stored: Option<DeviceSessionView>,
    threshold: u32,
    now: u64,
) -> (Option<DeviceSessionView>, DecryptStepView) {
    match attempt {
        AttemptView::NotMatching => (None, next_step_of(rest)),
        AttemptView::Rejected(error) => {
            let failures = one_more(
                match stored {
                    Some(s) => s.failures,
                    None => session.failures,
                },
            );
            let rejections = Rejections {
                last: error,
                all_wedged: failures >= threshold && match rest.rejections {
                    Some(earlier) => earlier.all_wedged,
                    None => true,
                },
            };
            (
                match stored {
                    Some(s) => Some(DeviceSessionView { failures, ..s }),
                    None => None,
                },
                next_step_of(DecryptionView { rejections: Some(rejections), ..rest }),
            )
        },
        AttemptView::Decrypted { ratchet, plaintext } => if !still_current(stored, session) {
            (
                None,
                DecryptStepView::Done(Err(OlmErrorView::Store(CryptoStoreErrorView::Conflict))),
            )
        } else if session.generation == u64::MAX {
            (None, DecryptStepView::Done(Err(OlmErrorView::SessionWedged)))
        } else {
            (
                Some(DeviceSessionView { failures: 0, ..advanced(stored->0, ratchet, now) }),
                DecryptStepView::Done(Ok(plaintext)),
            )
        },
    }
}

/// The state of a store after an optional write of a device session.
pub open spec fn after_write(state: StoreState, write: Option<DeviceSessionView>) -> StoreState {
    match write {
        Some(session) => state.with_device_session(session),
        None => state,
    }
}

/// A session that the primitive has created from a message that establishes
/// one, and the plaintext of that message.
#[derive(Debug, PartialEq, Eq)]
pub struct Established {
    pub session_id: String,
    /// The ratchet state of the new session.
    pub ratchet: Vec<u8>,
    pub plaintext: String,
}

/// An [`Established`] as a mathematical value.
pub struct EstablishedView {
    pub session_id: Seq<char>,
    pub ratchet: Seq<u8>,
    pub plaintext: Seq<char>,
}

impl View for Established {
    type V = EstablishedView;

    open spec fn view(&self) -> EstablishedView {
        EstablishedView {
            session_id: self.session_id@,
            ratchet: self.ratchet@,
            plaintext: self.plaintext@,
        }
    }
}

/// What is written and what is returned when the primitive reports on the
/// creation of a session. A failure of the primitive is reported. A new
/// session is saved as created and used at `now`, and the plaintext is
/// handed out; but where the store already holds a session under that key,
/// nothing is written over it and the decryption fails.
pub open spec fn establishment(
    sender_key: Seq<char>,
    outcome: Result<EstablishedView, OlmSessionError>,
    stored: Option<DeviceSessionView>,
    now: u64,
) -> (Option<DeviceSessionView>, Result<Seq<char>, OlmErrorView>) {
    match outcome {
        Err(error) => (None, Err(OlmErrorView::OlmSession(error))),
        Ok(established) => if stored is Some {
            (None, Err(OlmErrorView::Store(CryptoStoreErrorView::Conflict)))
        } else {
            (
                Some(
                    DeviceSessionView {
                        session_id: established.session_id,
                        sender_key,
                        ratchet: established.ratchet,
                        creation_time: now,
                        last_use_time: now,
                        generation: 0,
                        failures: 0,
                    },
                ),
                Ok(established.plaintext),
            )
        },
    }
}

/// The session with a device that a message to it is encrypted with: the one
/// used last. Without a session there is a failure: none is created here.
pub open spec fn selection(sessions: Seq<DeviceSessionView>) -> Result<
    DeviceSessionView,
    OlmErrorView,
> {
    match most_recent(sessions) {
        Some(at) => Ok(sessions[at]),
        None => Err(OlmErrorView::MissingSession),
    }
}

/// Picks the session that a message is encrypted with.
pub fn select_session(sessions: &Vec<DeviceSession>) -> (r: Result<DeviceSession, OlmError>)
    ensures
        match r {
            Ok(session) => selection(views_of(sessions@)) == Ok::<DeviceSessionView, OlmErrorView>(
                session@,
            ),
            Err(error) => selection(views_of(sessions@)) == Err::<DeviceSessionView, OlmErrorView>(
                error@,
            ),
        },
        r is Ok <==> sessions.len() > 0,
{
    match find_most_recent(sessions) {
        Some(at) => Ok(sessions[at].clone()),
        None => Err(OlmError::MissingSession),
    }
}

/// What the primitive hands back when it has encrypted a plaintext.
#[derive(Debug, PartialEq, Eq)]
pub struct Sealed {
    /// The ratchet state after the encryption.
    pub ratchet: Vec<u8>,
    /// 0 for a message that establishes a session, 1 for any other.
    pub message_type: u64,
    pub body: String,
}

/// A [`Sealed`] as a mathematical value.
pub struct SealedView {
    pub ratchet: Seq<u8>,
    pub message_type: u64,
    pub body: Seq<char>,
}

impl View for Sealed {
    type V = SealedView;

    open spec fn view(&self) -> SealedView {
        SealedView { ratchet: self.ratchet@, message_type: self.message_type, body: self.body@ }
    }
}

/// What is written and what is returned when the primitive reports on an
/// encryption with `session`, a copy of what the store held; `stored` is
/// what the store holds now under the same key. A failure of the primitive
/// is reported. The ciphertext is accepted if the store still holds the
/// generation that was used and the generations are not used up: the
/// advanced session is written, and the message is handed out under this
/// device's identity key. Otherwise nothing is written and the encryption
/// fails.
pub open spec fn encryption(
    identity_key: Seq<char>,
    session: DeviceSessionView,
    outcome: Result<SealedView, OlmSessionError>,
    stored: Option<DeviceSessionView>,
    now: u64,
) -> (Option<DeviceSessionView>, Result<OlmMessageView, OlmErrorView>) {
    match outcome {
        Err(error) => (None, Err(OlmErrorView::OlmSession(error))),
        Ok(sealed) => if !still_current(stored, session) {
            (None, Err(OlmErrorView::Store(CryptoStoreErrorView::Conflict)))
        } else if session.generation == u64::MAX {
            (None, Err(OlmErrorView::SessionWedged))
        } else {
            (
                Some(advanced(stored->0, sealed.ratchet, now)),
                Ok(
                    OlmMessageView {
                        algorithm: olm_algorithm(),
                        sender_key: identity_key,
                        message_type: sealed.message_type,
                        body: sealed.body,
                    },
                ),
            )
        },
    }
}

/// Whether the sessions with a device can still be relied on.
#[derive(Debug, Clone, Copy, PartialEq, Eq, Structural)]
pub enum SessionHealth {
    /// There is no session with the device.
    NoSession,
    /// At least one session has not failed as often as the manager
    /// tolerates.
    Healthy,
    /// Every session has: a new one has to be established out of band.
    Wedged,
}

/// The health of the sessions with one device.
pub open spec fn health_of(sessions: Seq<DeviceSessionView>, threshold: u32) -> SessionHealth {
    if sessions.len() == 0 {
        SessionHealth::NoSession
    } else if forall|i: int| 0 <= i < sessions.len() ==> (#[trigger] sessions[i]).failures
        >= threshold {
        SessionHealth::Wedged
    } else {
        SessionHealth::Healthy
    }
}

/// The manager of the pairwise sessions with other devices.
#[derive(Debug)]
pub struct DeviceSessionManager {
    /// The identity key of this device, which its messages carry.
    pub identity_key: String,
    /// After how many failed decryptions in a row a session counts as
    /// wedged.
    pub wedge_threshold: u32,
}

impl DeviceSessionManager {
    /// A manager for the device with the given identity key.
    pub fn new(identity_key: String, wedge_threshold: u32) -> (r: Self)
        ensures
            r.identity_key@ == identity_key@,
            r.wedge_threshold == wedge_threshold,
    {
        DeviceSessionManager { identity_key, wedge_threshold }
    }

    /// Decides what is written and what happens next when the primitive
    /// reports on an attempt.
    pub fn judge(
        &self,
        session: DeviceSession,
        rest: Decryption,
        attempt: Attempt,
        stored: Option<DeviceSession>,
        now: u64,
    ) -> (r: (Option<DeviceSession>, DecryptStep))
        ensures
            (optional_view(r.0), r.1@) == judgement(
                session@,
                rest@,
                attempt@,
                optional_view(stored),
                self.wedge_threshold,
                now,
            ),
    {
        match attempt {
            Attempt::NotMatching => (None, next_step(rest)),
            Attempt::Rejected(error) => {
                let counted = match &stored {
                    Some(s) => s.failures,
                    None => session.failures,
                };
                let failures = if counted < u32::MAX {
                    counted + 1
                } else {
                    counted
                };
                let earlier_wedged = match rest.rejections {
                    Some(earlier) => earlier.all_wedged,
                    None => true,
                };
                let rejections = Rejections {
                    last: error,
                    all_wedged: failures >= self.wedge_threshold && earlier_wedged,
                };
                let write = match stored {
                    Some(s) => Some(
                        DeviceSession {
                            session_id: s.session_id,
                            sender_key: s.sender_key,
                            ratchet: s.ratchet,
                            creation_time: s.creation_time,
                            last_use_time: s.last_use_time,
                            generation: s.generation,
                            failures,
                        },
                    ),
                    None => None,
                };
                let rest = Decryption {
                    sender_key: rest.sender_key,
                    pre_key: rest.pre_key,
                    remaining: rest.remaining,
                    rejections: Some(rejections),
                };
                (write, next_step(rest))
            },
            Attempt::Decrypted { ratchet, plaintext } => match stored {
                Some(s) => {
                    if s.generation != session.generation {
                        (None, DecryptStep::Done(Err(OlmError::Store(CryptoStoreError::Conflict))))
                    } else if session.generation == u64::MAX {
                        (None, DecryptStep::Done(Err(OlmError::SessionWedged)))
                    } else {
                        let last_use_time = if s.last_use_time >= now {
                            s.last_use_time
                        } else {
                            now
                        };
                        (
                            Some(
                                DeviceSession {
                                    session_id: s.session_id,
                                    sender_key: s.sender_key,
                                    ratchet,
                                    creation_time: s.creation_time,
                                    last_use_time,
                                    generation: s.generation + 1,
                                    failures: 0,
                                },
                            ),
                            DecryptStep::Done(Ok(plaintext)),
                        )
                    }
                },
                None => (None, DecryptStep::Done(Err(OlmError::Store(CryptoStoreError::Conflict)))),
            },
        }
    }

    /// Starts the decryption of a message: reads the sessions with its
    /// sender and decides the first step. The store is only read.
    pub fn begin_decrypt<S: CryptoStore>(&self, store: &S, message: &OlmMessage) -> (step:
        DecryptStep)
        ensures
            step@ == first_step_of(message@, store.state().sessions_with(message.sender_key@))
                || !store.infallible() && store_failed(step@),
    {
        match store.get_device_sessions(message.sender_key.as_str()) {
            Ok(sessions) => first_step(message, sessions),
            Err(error) => DecryptStep::Done(Err(OlmError::Store(error))),
        }
    }

    /// Goes on with a decryption once the primitive has reported on the
    /// attempt with `session`. What [`judgement`] says is written to the
    /// store before the step is returned; where the store fails, the
    /// decryption ends with that failure and nothing has been written.
    pub fn after_attempt<S: CryptoStore>(
        &self,
        store: &mut S,
        session: DeviceSession,
        rest: Decryption,
        attempt: Attempt,
        now: u64,
    ) -> (step: DecryptStep)
        ensures
            ({
                let decided = judgement(
                    session@,
                    rest@,
                    attempt@,
                    old(store).state().device_session(session.sender_key@, session.session_id@),
                    self.wedge_threshold,
                    now,
                );
                ||| step@ == decided.1 && final(store).state() == after_write(
                    old(store).state(),
                    decided.0,
                )
                ||| !old(store).infallible() && store_failed(step@) && final(store).state()
                    == old(store).state()
            }),
            final(store).infallible() == old(store).infallible(),
    {
        let stored = match store.get_device_session(
            session.sender_key.as_str(),
            session.session_id.as_str(),
        ) {
            Ok(stored) => stored,
            Err(error) => { return DecryptStep::Done(Err(OlmError::Store(error))); },
        };
        let decided = self.judge(session, rest, attempt, stored, now);
        match decided.0 {
            Some(write) => match store.save_device_session(&write) {
                Ok(_) => decided.1,
                Err(error) => DecryptStep::Done(Err(OlmError::Store(error))),
            },
            None => decided.1,
        }
    }

    /// Decides what is written and what is returned when the primitive
    /// reports on the creation of a session.
    pub fn establish(
        &self,
        sender_key: String,
        outcome: Result<Established, OlmSessionError>,
        stored: Option<DeviceSession>,
        now: u64,
    ) -> (r: (Option<DeviceSession>, Result<String, OlmError>))
        ensures
            (optional_view(r.0), result_view(r.1)) == establishment(
                sender_key@,
                result_view(outcome),
                optional_view(stored),
                now,
            ),
    {
        match outcome {
            Err(error) => (None, Err(OlmError::OlmSession(error))),
            Ok(established) => match stored {
                Some(_) => (None, Err(OlmError::Store(CryptoStoreError::Conflict))),
                None => (
                    Some(
                        DeviceSession {
                            session_id: established.session_id,
                            sender_key,
                            ratchet: established.ratchet,
                            creation_time: now,
                            last_use_time: now,
                            generation: 0,
                            failures: 0,
                        },
                    ),
                    Ok(established.plaintext),
                ),
            },
        }
    }

    /// Ends a decryption once the primitive has reported on the creation of
    /// a session for the device with the identity key `sender_key`. What
    /// [`establishment`] says is written to the store before the plaintext
    /// is returned; where the store fails, the decryption fails with that
    /// failure and nothing has been written.
    pub fn after_establish<S: CryptoStore>(
        &self,
        store: &mut S,
        sender_key: String,
        outcome: Result<Established, OlmSessionError>,
        now: u64,
    ) -> (r: Result<String, OlmError>)
        ensures
            ({
                let decided = establishment(
                    sender_key@,
                    result_view(outcome),
                    match outcome {
                        Ok(established) => old(store).state().device_session(
                            sender_key@,
                            established.session_id@,
                        ),
                        Err(_) => None,
                    },
                    now,
                );
                ||| result_view(r) == decided.1 && final(store).state() == after_write(
                    old(store).state(),
                    decided.0,
                )
                ||| !old(store).infallible() && olm_store_failure(result_view(r)) && final(store).state() == old(store).state()
            }),
            final(store).infallible() == old(store).infallible(),
    {
        let stored = match &outcome {
            Ok(established) => match store.get_device_session(
                sender_key.as_str(),
                established.session_id.as_str(),
            ) {
                Ok(stored) => stored,
                Err(error) => { return Err(OlmError::Store(error)); },
            },
            Err(_) => None,
        };
        let decided = self.establish(sender_key, outcome, stored, now);
        match decided.0 {
            Some(write) => match store.save_device_session(&write) {
                Ok(_) => decided.1,
                Err(error) => Err(OlmError::Store(error)),
            },
            None => decided.1,
        }
    }

    /// Starts the encryption of a message to the device with the identity
    /// key `sender_key`: reads the sessions with it and picks the one used
    /// last. The store is only read.
    pub fn begin_encrypt<S: CryptoStore>(&self, store: &S, sender_key: &str) -> (r: Result<
        DeviceSession,
        OlmError,
    >)
        ensures
            match r {
                Ok(session) => selection(store.state().sessions_with(sender_key@)) == Ok::<
                    DeviceSessionView,
                    OlmErrorView,
                >(session@),
                Err(error) => !store.infallible() && error@ is Store || selection(
                    store.state().sessions_with(sender_key@),
                ) == Err::<DeviceSessionView, OlmErrorView>(error@),
            },
    {
        match store.get_device_sessions(sender_key) {
            Ok(sessions) => select_session(&sessions),
            Err(error) => Err(OlmError::Store(error)),
        }
    }

    /// Decides what is written and what is returned when the primitive
    /// reports on an encryption.
    pub fn seal(
        &self,
        session: DeviceSession,
        outcome: Result<Sealed, OlmSessionError>,
        stored: Option<DeviceSession>,
        now: u64,
    ) -> (r: (Option<DeviceSession>, Result<OlmMessage, OlmError>))
        ensures
            (optional_view(r.0), result_view(r.1)) == encryption(
                self.identity_key@,
                session@,
                result_view(outcome),
                optional_view(stored),
                now,
            ),
    {
        match outcome {
            Err(error) => (None, Err(OlmError::OlmSession(error))),
            Ok(sealed) => match stored {
                Some(s) => {
                    if s.generation != session.generation {
                        (None, Err(OlmError::Store(CryptoStoreError::Conflict)))
                    } else if session.generation == u64::MAX {
                        (None, Err(OlmError::SessionWedged))
                    } else {
                        let last_use_time = if s.last_use_time >= now {
                            s.last_use_time
                        } else {
                            now
                        };
                        (
                            Some(
                                DeviceSession {
                                    session_id: s.session_id,
                                    sender_key: s.sender_key,
                                    ratchet: sealed.ratchet,
                                    creation_time: s.creation_time,
                                    last_use_time,
                                    generation: s.generation + 1,
                                    failures: s.failures,
                                },
                            ),
                            Ok(
                                OlmMessage {
                                    algorithm: "m.olm.v1.curve25519-aes-sha2".to_owned(),
                                    sender_key: self.identity_key.clone(),
                                    message_type: sealed.message_type,
                                    body: sealed.body,
                                },
                            ),
                        )
                    }
                },
                None => (None, Err(OlmError::Store(CryptoStoreError::Conflict))),
            },
        }
    }

    /// Ends an encryption once the primitive has reported on it. What
    /// [`encryption`] says is written to the store before the message is
    /// returned; where the store fails, the encryption fails with that
    /// failure and nothing has been written.
    pub fn finish_encrypt<S: CryptoStore>(
        &self,
        store: &mut S,
        session: DeviceSession,
        outcome: Result<Sealed, OlmSessionError>,
        now: u64,
    ) -> (r: Result<OlmMessage, OlmError>)
        ensures
            ({
                let decided = encryption(
                    self.identity_key@,
                    session@,
                    result_view(outcome),
                    old(store).state().device_session(session.sender_key@, session.session_id@),
                    now,
                );
                ||| result_view(r) == decided.1 && final(store).state() == after_write(
                    old(store).state(),
                    decided.0,
                )
                ||| !old(store).infallible() && olm_store_failure(result_view(r)) && final(store).state() == old(store).state()
            }),
            final(store).infallible() == old(store).infallible(),
    {
        let stored = match store.get_device_session(
            session.sender_key.as_str(),
            session.session_id.as_str(),
        ) {
            Ok(stored) => stored,
            Err(error) => { return Err(OlmError::Store(error)); },
        };
        let decided = self.seal(session, outcome, stored, now);
        match decided.0 {
            Some(write) => match store.save_device_session(&write) {
                Ok(_) => decided.1,
                Err(error) => Err(OlmError::Store(error)),
            },
            None => decided.1,
        }
    }

    /// The health of a list of sessions with one device.
    pub fn health(&self, sessions: &Vec<DeviceSession>) -> (r: SessionHealth)
        ensures
            r == health_of(views_of(sessions@), self.wedge_threshold),
    {
        if sessions.len() == 0 {
            return SessionHealth::NoSession;
        }
        let mut i: usize = 0;
        while i < sessions.len()
            invariant
                i <= sessions.len(),
                forall|j: int|
                    0 <= j < i ==> (#[trigger] views_of(sessions@)[j]).failures
                        >= self.wedge_threshold,
            decreases sessions.len() - i,
        {
            if sessions[i].failures < self.wedge_threshold {
                assert(views_of(sessions@)[i as int].failures < self.wedge_threshold);
                return SessionHealth::Healthy;
            }
            i = i + 1;
        }
        SessionHealth::Wedged
    }

    /// Whether the sessions with the device that has the identity key
    /// `sender_key` are healthy or wedged. The store is only read.
    pub fn session_health<S: CryptoStore>(&self, store: &S, sender_key: &str) -> (r: Result<
        SessionHealth,
        OlmError,
    >)
        ensures
            match r {
                Ok(health) => health == health_of(
                    store.state().sessions_with(sender_key@),
                    self.wedge_threshold,
                ),
                Err(error) => !store.infallible() && error@ is Store,
            },
    {
        match store.get_device_sessions(sender_key) {
            Ok(sessions) => Ok(self.health(&sessions)),
            Err(error) => Err(OlmError::Store(error)),
        }
    }
}

/// Of two decryptions that were computed from the same copy of a stored
/// session, only one is accepted. The first one advances the stored session
/// by one generation; the second one then fails with a conflict and writes
/// nothing, whatever ratchet state and plaintext it brings: the store
/// reflects exactly one advance.
pub proof fn law_one_advance_per_generation(
    state: StoreState,
    session: DeviceSessionView,
    rest: DecryptionView,
    first: AttemptView,
    second: AttemptView,
    threshold: u32,
    now: u64,
    later_on: u64,
)
    requires
        state.device_session(session.sender_key, session.session_id) == Some(session),
        session.generation < u64::MAX,
        first is Decrypted,
        second is Decrypted,
    ensures
        ({
            let accepted = judgement(session, rest, first, Some(session), threshold, now);
            let after = after_write(state, accepted.0);
            let held = after.device_session(session.sender_key, session.session_id);
            let refused = judgement(session, rest, second, held, threshold, later_on);
            &&& accepted.1 == DecryptStepView::Done(Ok(first->plaintext))
            &&& held matches Some(stored) && stored.generation == session.generation + 1
                && stored.ratchet == first->ratchet
            &&& refused.0 is None
            &&& refused.1 == DecryptStepView::Done(
                Err(OlmErrorView::Store(CryptoStoreErrorView::Conflict)),
            )
            &&& after_write(after, refused.0) == after
        }),
{
    let accepted = judgement(session, rest, first, Some(session), threshold, now);
    lemma_lookup_saved(
        state.device_sessions,
        is_device_session(session.sender_key, session.session_id),
        accepted.0->0,
    );
}

/// The same holds of two encryptions that were computed from the same copy
/// of a stored session: the first one is accepted and advances the session
/// by one generation, the second one fails with a conflict and writes
/// nothing.
pub proof fn law_one_encryption_per_generation(
    identity_key: Seq<char>,
    state: StoreState,
    session: DeviceSessionView,
    first: SealedView,
    second: SealedView,
    now: u64,
    later_on: u64,
)
    requires
        state.device_session(session.sender_key, session.session_id) == Some(session),
        session.generation < u64::MAX,
    ensures
        ({
            let accepted = encryption(identity_key, session, Ok(first), Some(session), now);
            let after = after_write(state, accepted.0);
            let held = after.device_session(session.sender_key, session.session_id);
            let refused = encryption(identity_key, session, Ok(second), held, later_on);
            &&& accepted.1 matches Ok(message) && message.body == first.body && message.sender_key
                == identity_key
            &&& held matches Some(stored) && stored.generation == session.generation + 1
                && stored.ratchet == first.ratchet && stored.last_use_time
                >= session.last_use_time
            &&& refused.0 is None
            &&& refused.1 == Err::<OlmMessageView, OlmErrorView>(
                OlmErrorView::Store(CryptoStoreErrorView::Conflict),
            )
        }),
{
    let accepted = encryption(identity_key, session, Ok(first), Some(session), now);
    lemma_lookup_saved(
        state.device_sessions,
        is_device_session(session.sender_key, session.session_id),
        accepted.0->0,
    );
}

/// A device whose only session rejects a message is reported as wedged once
/// the session has failed as often in a row as the manager tolerates; before
/// that the failure of the ratchet is reported. Either way the failure is
/// counted against the stored session, which is not destroyed.
pub proof fn law_only_session_wedges_at_the_threshold(
    session: DeviceSessionView,
    sender_key: Seq<char>,
    pre_key: bool,
    error: OlmSessionError,
    threshold: u32,
    now: u64,
)
    ensures
        ({
            let rest = DecryptionView {
                sender_key,
                pre_key,
                remaining: Seq::empty(),
                rejections: None,
            };
            let decided = judgement(
                session,
                rest,
                AttemptView::Rejected(error),
                Some(session),
                threshold,
                now,
            );
            &&& decided.0 == Some(
                DeviceSessionView { failures: one_more(session.failures), ..session },
            )
            &&& decided.1 == if one_more(session.failures) >= threshold {
                DecryptStepView::Done(Err(OlmErrorView::SessionWedged))
            } else {
                DecryptStepView::Done(Err(OlmErrorView::OlmSession(error)))
            }
        }),
{
    let rest = DecryptionView { sender_key, pre_key, remaining: Seq::empty(), rejections: None };
    assert(most_recent(rest.remaining) is None);
}

/// Sessions are tried from the one used last to the one used first: the
/// session that a step hands out was used no earlier than any session that
/// is left, and what is left is the list without it.
pub proof fn law_sessions_are_tried_most_recent_first(rest: DecryptionView)
    ensures
        match next_step_of(rest) {
            DecryptStepView::Attempt { session, rest: left } => {
                &&& rest.remaining.contains(session)
                &&& left.remaining.len() == rest.remaining.len() - 1
                &&& forall|i: int|
                    0 <= i < left.remaining.len() ==> (#[trigger] left.remaining[i]).last_use_time
                        <= session.last_use_time
            },
            _ => rest.remaining.len() == 0,
        },
{
    match most_recent(rest.remaining) {
        Some(at) => {
            assert(is_most_recent(rest.remaining, at));
            assert(rest.remaining.contains(rest.remaining[at]));
            let left = rest.remaining.remove(at);
            assert forall|i: int| 0 <= i < left.len() implies (#[trigger] left[i]).last_use_time
                <= rest.remaining[at].last_use_time by {
                if i < at {
                    assert(left[i] == rest.remaining[i]);
                } else {
                    assert(left[i] == rest.remaining[i + 1]);
                }
            }
        },
        None => {
            if rest.remaining.len() > 0 {
                lemma_some_session_is_most_recent(rest.remaining, rest.remaining.len() as int);
                assert(rest.remaining.take(rest.remaining.len() as int) =~= rest.remaining);
            }
        },
    }
}

/// Among the first `upto` sessions of a list, one is the one used last.
proof fn lemma_some_session_is_most_recent(sessions: Seq<DeviceSessionView>, upto: int)
    requires
        0 < upto <= sessions.len(),
    ensures
        exists|at: int| is_most_recent(sessions.take(upto), at),
    decreases upto,
{
    let prefix = sessions.take(upto);
    if upto == 1 {
        assert(is_most_recent(prefix, 0));
    } else {
        lemma_some_session_is_most_recent(sessions, upto - 1);
        let shorter = sessions.take(upto - 1);
        let best = choose|at: int| is_most_recent(shorter, at);
        assert(is_most_recent(shorter, best));
        assert forall|j: int| 0 <= j < shorter.len() implies shorter[j] == prefix[j] by {}
        if prefix[upto - 1].last_use_time > prefix[best].last_use_time {
            assert forall|j: int| 0 <= j < prefix.len() implies (#[trigger] prefix[j]).last_use_time
                <= prefix[upto - 1].last_use_time by {
                if j < upto - 1 {
                    assert(shorter[j].last_use_time <= shorter[best].last_use_time);
                }
            }
            assert forall|j: int| 0 <= j < upto - 1 implies (#[trigger] prefix[j]).last_use_time
                < prefix[upto - 1].last_use_time by {
                assert(shorter[j].last_use_time <= shorter[best].last_use_time);
            }
            assert(is_most_recent(prefix, upto - 1));
        } else {
            assert forall|j: int| 0 <= j < prefix.len() implies (#[trigger] prefix[j]).last_use_time
                <= prefix[best].last_use_time by {
                if j < upto - 1 {
                    assert(shorter[j].last_use_time <= shorter[best].last_use_time);
                }
            }
            assert forall|j: int| 0 <= j < best implies (#[trigger] prefix[j]).last_use_time
                < prefix[best].last_use_time by {
                assert(shorter[j].last_use_time < shorter[best].last_use_time);
            }
            assert(is_most_recent(prefix, best));
        }
    }
}

/// While there is no session with a device, a message to it cannot be
/// encrypted, and of its messages only one that establishes a session can be
/// decrypted. Once the session has been established and saved, it is the one
/// that the next message to the device is encrypted with.
pub proof fn law_no_session_until_one_is_established(
    state: StoreState,
    message: OlmMessageView,
    established: EstablishedView,
    now: u64,
)
    requires
        state.sessions_with(message.sender_key).len() == 0,
        message.algorithm == olm_algorithm(),
        message.message_type == 0 || message.message_type == 1,
    ensures
        ({
            let sender_key = message.sender_key;
            let sessions = state.sessions_with(sender_key);
            let decided = establishment(
                sender_key,
                Ok(established),
                state.device_session(sender_key, established.session_id),
                now,
            );
            let after = after_write(state, decided.0);
            &&& selection(sessions) == Err::<DeviceSessionView, OlmErrorView>(
                OlmErrorView::MissingSession,
            )
            &&& first_step_of(message, sessions) == if message.message_type == 0 {
                DecryptStepView::Establish { sender_key }
            } else {
                DecryptStepView::Done(Err(OlmErrorView::MissingSession))
            }
            &&& decided.1 == Ok::<Seq<char>, OlmErrorView>(established.plaintext)
            &&& selection(after.sessions_with(sender_key)) matches Ok(session)
                && session.session_id == established.session_id && session.ratchet
                == established.ratchet && session.generation == 0
        }),
{
    let sender_key = message.sender_key;
    let sessions = state.sessions_with(sender_key);
    assert(most_recent(sessions) is None);
    law_sessions_with_a_device(state, sender_key, established.session_id);
    let decided = establishment(
        sender_key,
        Ok(established),
        state.device_session(sender_key, established.session_id),
        now,
    );
    let session = decided.0->0;
    law_saved_device_session(state, session, sender_key);
    lemma_position_none(sessions, is_device_session(sender_key, established.session_id));
    let after = after_write(state, decided.0).sessions_with(sender_key);
    assert(after =~= seq![session]);
    assert(is_most_recent(after, 0));
    lemma_most_recent_is_unique(after, 0);
}

/// A message goes from one device's manager to the other's as the
/// primitive made it: what an accepted encryption hands out carries the
/// primitive's ciphertext under this device's identity key, its envelope is
/// one that a decryption does not refuse, and what the primitive then
/// decrypts from it with the stored session is the plaintext that is handed
/// out. That the primitive decrypts to what was encrypted is the
/// primitive's part.
pub proof fn law_messages_pass_unchanged(
    identity_key: Seq<char>,
    sending: DeviceSessionView,
    sealed: SealedView,
    receiving: DeviceSessionView,
    rest: DecryptionView,
    ratchet: Seq<u8>,
    plaintext: Seq<char>,
    threshold: u32,
    now: u64,
)
    requires
        sending.generation < u64::MAX,
        receiving.generation < u64::MAX,
        sealed.message_type == 0 || sealed.message_type == 1,
    ensures
        ({
            let sent = encryption(identity_key, sending, Ok(sealed), Some(sending), now);
            let received = judgement(
                receiving,
                rest,
                AttemptView::Decrypted { ratchet, plaintext },
                Some(receiving),
                threshold,
                now,
            );
            &&& sent.1 matches Ok(message) && message.body == sealed.body && message.sender_key
                == identity_key && message_kind(message) is Ok
            &&& received.1 == DecryptStepView::Done(Ok(plaintext))
        }),
{
}

} // verus!
