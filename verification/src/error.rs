//! The error vocabulary shared by every operation of the library.
//!
//! Each family is a closed enum. A variant is either terminal or wraps the
//! lower-level cause, so that the caller can tell a missing key from a
//! malformed payload, a desynchronized session or a failing store.

use vstd::prelude::*;
use vstd::std_specs::convert::FromSpecImpl;
use vstd::string::StringExecFns;

verus! {

/// The failure that `cjson` reports when a value has no canonical form.
#[verifier::external_type_specification]
#[verifier::external_body]
pub struct ExCanonicalJsonFailure(cjson::Error);

/// The failure that `serde_json` reports for text that is not a JSON payload.
#[verifier::external_type_specification]
#[verifier::external_body]
pub struct ExJsonFailure(serde_json::Error);

/// What the pairwise ratchet primitive reports when it rejects an operation.
#[derive(Debug, Clone, Copy, PartialEq, Eq, Structural)]
pub enum OlmSessionError {
    BadAccountKey,
    BadMessageFormat,
    BadMessageKeyId,
    BadMessageMac,
    BadMessageVersion,
    InvalidBase64,
    NotEnoughRandom,
    OutputBufferTooSmall,
    Unknown,
}

/// What the group ratchet primitive reports when it rejects an operation.
#[derive(Debug, Clone, Copy, PartialEq, Eq, Structural)]
pub enum OlmGroupSessionError {
    BadAccountKey,
    BadMessageFormat,
    BadMessageMac,
    BadMessageVersion,
    BadSessionKey,
    InvalidBase64,
    NotEnoughRandom,
    OutputBufferTooSmall,
    UnknownMessageIndex,
    Unknown,
}

/// A failure of the persistence layer.
#[derive(Debug)]
pub enum CryptoStoreError {
    /// The backend could not complete the read or the write.
    Backend(String),
    /// The stored record changed after the operation had read it, so the
    /// write was not made.
    Conflict,
}

/// A malformed or unsupported encrypted payload.
#[derive(Debug)]
pub enum EventError {
    UnsupportedOlmType,
    UnsupportedAlgorithm,
    NotAnObject,
    MissingCiphertext,
    MissingSigningKey,
    MissingField(String),
    MissmatchedSender,
    MissmatchedKeys,
}

/// A failure of a device to device operation.
#[derive(Debug)]
pub enum OlmError {
    /// The event that should have been decrypted is malformed.
    EventError(EventError),
    /// The decrypted event could not be deserialized.
    JsonError(serde_json::Error),
    /// The pairwise ratchet rejected the operation.
    OlmSession(OlmSessionError),
    /// The group ratchet rejected the operation.
    OlmGroupSession(OlmGroupSessionError),
    /// The storage layer returned an error.
    Store(CryptoStoreError),
    /// There is no session with the device, and none is created implicitly.
    MissingSession,
    /// Every session with the device keeps failing: a new one has to be
    /// established out of band.
    SessionWedged,
}

/// A failure of a group encryption operation.
#[derive(Debug)]
pub enum MegolmError {
    /// The event that should have been decrypted is malformed.
    EventError(EventError),
    /// The decrypted event could not be deserialized.
    JsonError(serde_json::Error),
    /// The session needed for the message has not been received or created.
    MissingSession,
    /// The group ratchet rejected the operation.
    OlmGroupSession(OlmGroupSessionError),
    /// The storage layer returned an error.
    Store(CryptoStoreError),
}

/// A failure to authenticate a signed JSON object.
#[derive(Debug)]
pub enum SignatureError {
    NotAnObject,
    NoSignatureFound,
    CanonicalJsonError(cjson::Error),
    VerificationError,
}

impl View for OlmSessionError {
    type V = OlmSessionError;

    open spec fn view(&self) -> OlmSessionError {
        *self
    }
}

impl View for OlmGroupSessionError {
    type V = OlmGroupSessionError;

    open spec fn view(&self) -> OlmGroupSessionError {
        *self
    }
}

/// A store failure, its message taken as a sequence of characters.
pub enum CryptoStoreErrorView {
    Backend(Seq<char>),
    Conflict,
}

impl View for CryptoStoreError {
    type V = CryptoStoreErrorView;

    open spec fn view(&self) -> CryptoStoreErrorView {
        match self {
            CryptoStoreError::Backend(message) => CryptoStoreErrorView::Backend(message@),
            CryptoStoreError::Conflict => CryptoStoreErrorView::Conflict,
        }
    }
}

/// A payload failure, the name of a missing field taken as a sequence of
/// characters.
pub enum EventErrorView {
    UnsupportedOlmType,
    UnsupportedAlgorithm,
    NotAnObject,
    MissingCiphertext,
    MissingSigningKey,
    MissingField(Seq<char>),
    MissmatchedSender,
    MissmatchedKeys,
}

impl View for EventError {
    type V = EventErrorView;

    open spec fn view(&self) -> EventErrorView {
        match self {
            EventError::UnsupportedOlmType => EventErrorView::UnsupportedOlmType,
            EventError::UnsupportedAlgorithm => EventErrorView::UnsupportedAlgorithm,
            EventError::NotAnObject => EventErrorView::NotAnObject,
            EventError::MissingCiphertext => EventErrorView::MissingCiphertext,
            EventError::MissingSigningKey => EventErrorView::MissingSigningKey,
            EventError::MissingField(name) => EventErrorView::MissingField(name@),
            EventError::MissmatchedSender => EventErrorView::MissmatchedSender,
            EventError::MissmatchedKeys => EventErrorView::MissmatchedKeys,
        }
    }
}

/// A device to device failure. What `serde_json` reported is left out.
pub enum OlmErrorView {
    EventError(EventErrorView),
    JsonError,
    OlmSession(OlmSessionError),
    OlmGroupSession(OlmGroupSessionError),
    Store(CryptoStoreErrorView),
    MissingSession,
    SessionWedged,
}

impl View for OlmError {
    type V = OlmErrorView;

    open spec fn view(&self) -> OlmErrorView {
        match self {
            OlmError::EventError(error) => OlmErrorView::EventError(error@),
            OlmError::JsonError(_) => OlmErrorView::JsonError,
            OlmError::OlmSession(error) => OlmErrorView::OlmSession(*error),
            OlmError::OlmGroupSession(error) => OlmErrorView::OlmGroupSession(*error),
            OlmError::Store(error) => OlmErrorView::Store(error@),
            OlmError::MissingSession => OlmErrorView::MissingSession,
            OlmError::SessionWedged => OlmErrorView::SessionWedged,
        }
    }
}

/// A group encryption failure, seen as [`OlmErrorView`] sees a device to
/// device failure.
pub enum MegolmErrorView {
    EventError(EventErrorView),
    JsonError,
    MissingSession,
    OlmGroupSession(OlmGroupSessionError),
    Store(CryptoStoreErrorView),
}

impl View for MegolmError {
    type V = MegolmErrorView;

    open spec fn view(&self) -> MegolmErrorView {
        match self {
            MegolmError::EventError(error) => MegolmErrorView::EventError(error@),
            MegolmError::JsonError(_) => MegolmErrorView::JsonError,
            MegolmError::MissingSession => MegolmErrorView::MissingSession,
            MegolmError::OlmGroupSession(error) => MegolmErrorView::OlmGroupSession(*error),
            MegolmError::Store(error) => MegolmErrorView::Store(error@),
        }
    }
}

/// Whether a device to device operation ended with a failure of the store.
pub open spec fn olm_store_failure<T>(result: Result<T, OlmErrorView>) -> bool {
    result matches Err(OlmErrorView::Store(_))
}

/// Whether a group operation ended with a failure of the store.
pub open spec fn megolm_store_failure<T>(result: Result<T, MegolmErrorView>) -> bool {
    result matches Err(MegolmErrorView::Store(_))
}

/// What the pairwise ratchet says of a failure.
pub open spec fn olm_session_message(error: OlmSessionError) -> Seq<char> {
    match error {
        OlmSessionError::BadAccountKey => "The supplied account key is invalid"@,
        OlmSessionError::BadMessageFormat => "The message couldn't be decoded"@,
        OlmSessionError::BadMessageKeyId => "The message references an unknown key id"@,
        OlmSessionError::BadMessageMac => "The message couldn't be decrypted"@,
        OlmSessionError::BadMessageVersion => "The message version is unsupported"@,
        OlmSessionError::InvalidBase64 => "The input base64 was invalid"@,
        OlmSessionError::NotEnoughRandom => "Not enough entropy was supplied"@,
        OlmSessionError::OutputBufferTooSmall => "Supplied output buffer is too small"@,
        OlmSessionError::Unknown => "An unknown error occured."@,
    }
}

/// What the group ratchet says of a failure.
pub open spec fn olm_group_session_message(error: OlmGroupSessionError) -> Seq<char> {
    match error {
        OlmGroupSessionError::BadAccountKey => "The supplied account key is invalid"@,
        OlmGroupSessionError::BadMessageFormat => "The message couldn't be decoded"@,
        OlmGroupSessionError::BadMessageMac => "The message couldn't be decrypted"@,
        OlmGroupSessionError::BadMessageVersion => "The message version is unsupported"@,
        OlmGroupSessionError::BadSessionKey =>
            "Can't initialise the inbound group session, invalid session key"@,
        OlmGroupSessionError::InvalidBase64 => "The input base64 was invalid"@,
        OlmGroupSessionError::NotEnoughRandom => "Not enough entropy was supplied"@,
        OlmGroupSessionError::OutputBufferTooSmall => "Supplied output buffer is too small"@,
        OlmGroupSessionError::UnknownMessageIndex =>
            "Can't decode the message, message index is earlier than our earliest known session key"@,
        OlmGroupSessionError::Unknown => "An unknown error occured."@,
    }
}

/// What a store failure says.
pub open spec fn store_message(error: CryptoStoreErrorView) -> Seq<char> {
    match error {
        CryptoStoreErrorView::Backend(message) => message,
        CryptoStoreErrorView::Conflict =>
            "the stored record changed while the operation was under way"@,
    }
}

/// What a payload failure says.
pub open spec fn event_message(error: EventErrorView) -> Seq<char> {
    match error {
        EventErrorView::UnsupportedOlmType => "the Olm message has a unsupported type"@,
        EventErrorView::UnsupportedAlgorithm =>
            "the Encrypted message has been encrypted with a unsupported algorithm."@,
        EventErrorView::NotAnObject => "the provided JSON value isn't an object"@,
        EventErrorView::MissingCiphertext =>
            "the Encrypted message doesn't contain a ciphertext for our device"@,
        EventErrorView::MissingSigningKey =>
            "the Encrypted message is missing the signing key of the sender"@,
        EventErrorView::MissingField(field) => "the Encrypted message is missing the field "@
            + field,
        EventErrorView::MissmatchedSender =>
            "the sender of the plaintext doesn't match the sender of the encrypted message."@,
        EventErrorView::MissmatchedKeys =>
            "the keys of the message don't match the keys in our database."@,
    }
}

/// What a device to device failure says. What `serde_json` says of a
/// payload is its own text, which is not described here.
pub open spec fn olm_message(error: OlmErrorView) -> Seq<char> {
    match error {
        OlmErrorView::EventError(error) => event_message(error),
        OlmErrorView::JsonError => Seq::empty(),
        OlmErrorView::OlmSession(error) => "can't finish Olm Session operation "@
            + olm_session_message(error),
        OlmErrorView::OlmGroupSession(error) => "can't finish Olm Session operation "@
            + olm_group_session_message(error),
        OlmErrorView::Store(error) => "failed to read or write to the crypto store "@
            + store_message(error),
        OlmErrorView::MissingSession =>
            "encryption failed because there is no Olm session with the device"@,
        OlmErrorView::SessionWedged =>
            "decryption failed likely because a Olm session was wedged"@,
    }
}

/// What a group encryption failure says.
pub open spec fn megolm_message(error: MegolmErrorView) -> Seq<char> {
    match error {
        MegolmErrorView::EventError(error) => event_message(error),
        MegolmErrorView::JsonError => Seq::empty(),
        MegolmErrorView::MissingSession =>
            "decryption failed because the session to decrypt the message is missing"@,
        MegolmErrorView::OlmGroupSession(error) => "can't finish Olm group session operation "@
            + olm_group_session_message(error),
        MegolmErrorView::Store(error) => store_message(error),
    }
}

/// What `serde_json` says of a failure: the text that its `Display` writes.
#[verifier::external_body]
fn json_failure_text(error: &serde_json::Error) -> String {
    error.to_string()
}

impl OlmSessionError {
    /// What the failure says.
    pub fn message(&self) -> (r: String)
        ensures
            r@ == olm_session_message(*self),
    {
        match self {
            OlmSessionError::BadAccountKey => "The supplied account key is invalid".to_owned(),
            OlmSessionError::BadMessageFormat => "The message couldn't be decoded".to_owned(),
            OlmSessionError::BadMessageKeyId => "The message references an unknown key id"
                .to_owned(),
            OlmSessionError::BadMessageMac => "The message couldn't be decrypted".to_owned(),
            OlmSessionError::BadMessageVersion => "The message version is unsupported".to_owned(),
            OlmSessionError::InvalidBase64 => "The input base64 was invalid".to_owned(),
            OlmSessionError::NotEnoughRandom => "Not enough entropy was supplied".to_owned(),
            OlmSessionError::OutputBufferTooSmall => "Supplied output buffer is too small"
                .to_owned(),
            OlmSessionError::Unknown => "An unknown error occured.".to_owned(),
        }
    }
}

impl OlmGroupSessionError {
    /// What the failure says.
    pub fn message(&self) -> (r: String)
        ensures
            r@ == olm_group_session_message(*self),
    {
        match self {
            OlmGroupSessionError::BadAccountKey => "The supplied account key is invalid".to_owned(),
            OlmGroupSessionError::BadMessageFormat => "The message couldn't be decoded".to_owned(),
            OlmGroupSessionError::BadMessageMac => "The message couldn't be decrypted".to_owned(),
            OlmGroupSessionError::BadMessageVersion => "The message version is unsupported"
                .to_owned(),
            OlmGroupSessionError::BadSessionKey =>
                "Can't initialise the inbound group session, invalid session key".to_owned(),
            OlmGroupSessionError::InvalidBase64 => "The input base64 was invalid".to_owned(),
            OlmGroupSessionError::NotEnoughRandom => "Not enough entropy was supplied".to_owned(),
            OlmGroupSessionError::OutputBufferTooSmall => "Supplied output buffer is too small"
                .to_owned(),
            OlmGroupSessionError::UnknownMessageIndex =>
                "Can't decode the message, message index is earlier than our earliest known session key"
                .to_owned(),
            OlmGroupSessionError::Unknown => "An unknown error occured.".to_owned(),
        }
    }
}

impl CryptoStoreError {
    /// What the failure says.
    pub fn message(&self) -> (r: String)
        ensures
            r@ == store_message(self@),
    {
        match self {
            CryptoStoreError::Backend(message) => message.clone(),
            CryptoStoreError::Conflict =>
                "the stored record changed while the operation was under way".to_owned(),
        }
    }
}

impl EventError {
    /// What the failure says.
    pub fn message(&self) -> (r: String)
        ensures
            r@ == event_message(self@),
    {
        match self {
            EventError::UnsupportedOlmType => "the Olm message has a unsupported type".to_owned(),
            EventError::UnsupportedAlgorithm =>
                "the Encrypted message has been encrypted with a unsupported algorithm."
                .to_owned(),
            EventError::NotAnObject => "the provided JSON value isn't an object".to_owned(),
            EventError::MissingCiphertext =>
                "the Encrypted message doesn't contain a ciphertext for our device".to_owned(),
            EventError::MissingSigningKey =>
                "the Encrypted message is missing the signing key of the sender".to_owned(),
            EventError::MissingField(field) => {
                let mut text = "the Encrypted message is missing the field ".to_owned();
                text.append(field.as_str());
                text
            },
            EventError::MissmatchedSender =>
                "the sender of the plaintext doesn't match the sender of the encrypted message."
                .to_owned(),
            EventError::MissmatchedKeys =>
                "the keys of the message don't match the keys in our database.".to_owned(),
        }
    }
}

impl OlmError {
    /// What the failure says.
    pub fn message(&self) -> (r: String)
        ensures
            !(self@ is JsonError) ==> r@ == olm_message(self@),
    {
        match self {
            OlmError::EventError(error) => error.message(),
            OlmError::JsonError(error) => json_failure_text(error),
            OlmError::OlmSession(error) => {
                let mut text = "can't finish Olm Session operation ".to_owned();
                text.append(error.message().as_str());
                text
            },
            OlmError::OlmGroupSession(error) => {
                let mut text = "can't finish Olm Session operation ".to_owned();
                text.append(error.message().as_str());
                text
            },
            OlmError::Store(error) => {
                let mut text = "failed to read or write to the crypto store ".to_owned();
                text.append(error.message().as_str());
                text
            },
            OlmError::MissingSession =>
                "encryption failed because there is no Olm session with the device".to_owned(),
            OlmError::SessionWedged => "decryption failed likely because a Olm session was wedged"
                .to_owned(),
        }
    }
}

impl MegolmError {
    /// What the failure says.
    pub fn message(&self) -> (r: String)
        ensures
            !(self@ is JsonError) ==> r@ == megolm_message(self@),
    {
        match self {
            MegolmError::EventError(error) => error.message(),
            MegolmError::JsonError(error) => json_failure_text(error),
            MegolmError::MissingSession =>
                "decryption failed because the session to decrypt the message is missing"
                .to_owned(),
            MegolmError::OlmGroupSession(error) => {
                let mut text = "can't finish Olm group session operation ".to_owned();
                text.append(error.message().as_str());
                text
            },
            MegolmError::Store(error) => error.message(),
        }
    }
}

/// What a signature failure says.
pub open spec fn signature_message(error: SignatureError) -> Seq<char> {
    match error {
        SignatureError::NotAnObject => "the provided JSON value isn't an object"@,
        SignatureError::NoSignatureFound =>
            "the provided JSON object doesn't contain a signatures field"@,
        SignatureError::CanonicalJsonError(_) =>
            "the provided JSON object can't be converted to a canonical representation"@,
        SignatureError::VerificationError => "the signature didn't match the provided key"@,
    }
}

impl SignatureError {
    /// What the failure says.
    pub fn message(&self) -> (r: String)
        ensures
            r@ == signature_message(*self),
    {
        match self {
            SignatureError::NotAnObject => "the provided JSON value isn't an object".to_owned(),
            SignatureError::NoSignatureFound =>
                "the provided JSON object doesn't contain a signatures field".to_owned(),
            SignatureError::CanonicalJsonError(_) =>
                "the provided JSON object can't be converted to a canonical representation"
                .to_owned(),
            SignatureError::VerificationError => "the signature didn't match the provided key"
                .to_owned(),
        }
    }
}

impl From<EventError> for OlmError {
    fn from(error: EventError) -> (r: Self) {
        OlmError::EventError(error)
    }
}

impl FromSpecImpl<EventError> for OlmError {
    open spec fn obeys_from_spec() -> bool {
        true
    }

    open spec fn from_spec(error: EventError) -> OlmError {
        OlmError::EventError(error)
    }
}

impl From<serde_json::Error> for OlmError {
    fn from(error: serde_json::Error) -> (r: Self) {
        OlmError::JsonError(error)
    }
}

impl FromSpecImpl<serde_json::Error> for OlmError {
    open spec fn obeys_from_spec() -> bool {
        true
    }

    open spec fn from_spec(error: serde_json::Error) -> OlmError {
        OlmError::JsonError(error)
    }
}

impl From<OlmSessionError> for OlmError {
    fn from(error: OlmSessionError) -> (r: Self) {
        OlmError::OlmSession(error)
    }
}

impl FromSpecImpl<OlmSessionError> for OlmError {
    open spec fn obeys_from_spec() -> bool {
        true
    }

    open spec fn from_spec(error: OlmSessionError) -> OlmError {
        OlmError::OlmSession(error)
    }
}

impl From<OlmGroupSessionError> for OlmError {
    fn from(error: OlmGroupSessionError) -> (r: Self) {
        OlmError::OlmGroupSession(error)
    }
}

impl FromSpecImpl<OlmGroupSessionError> for OlmError {
    open spec fn obeys_from_spec() -> bool {
        true
    }

    open spec fn from_spec(error: OlmGroupSessionError) -> OlmError {
        OlmError::OlmGroupSession(error)
    }
}

impl From<CryptoStoreError> for OlmError {
    fn from(error: CryptoStoreError) -> (r: Self) {
        OlmError::Store(error)
    }
}

impl FromSpecImpl<CryptoStoreError> for OlmError {
    open spec fn obeys_from_spec() -> bool {
        true
    }

    open spec fn from_spec(error: CryptoStoreError) -> OlmError {
        OlmError::Store(error)
    }
}

impl From<EventError> for MegolmError {
    fn from(error: EventError) -> (r: Self) {
        MegolmError::EventError(error)
    }
}

impl FromSpecImpl<EventError> for MegolmError {
    open spec fn obeys_from_spec() -> bool {
        true
    }

    open spec fn from_spec(error: EventError) -> MegolmError {
        MegolmError::EventError(error)
    }
}

impl From<serde_json::Error> for MegolmError {
    fn from(error: serde_json::Error) -> (r: Self) {
        MegolmError::JsonError(error)
    }
}

impl FromSpecImpl<serde_json::Error> for MegolmError {
    open spec fn obeys_from_spec() -> bool {
        true
    }

    open spec fn from_spec(error: serde_json::Error) -> MegolmError {
        MegolmError::JsonError(error)
    }
}

impl From<OlmGroupSessionError> for MegolmError {
    fn from(error: OlmGroupSessionError) -> (r: Self) {
        MegolmError::OlmGroupSession(error)
    }
}

impl FromSpecImpl<OlmGroupSessionError> for MegolmError {
    open spec fn obeys_from_spec() -> bool {
        true
    }

    open spec fn from_spec(error: OlmGroupSessionError) -> MegolmError {
        MegolmError::OlmGroupSession(error)
    }
}

impl From<CryptoStoreError> for MegolmError {
    fn from(error: CryptoStoreError) -> (r: Self) {
        MegolmError::Store(error)
    }
}

impl FromSpecImpl<CryptoStoreError> for MegolmError {
    open spec fn obeys_from_spec() -> bool {
        true
    }

    open spec fn from_spec(error: CryptoStoreError) -> MegolmError {
        MegolmError::Store(error)
    }
}

impl From<cjson::Error> for SignatureError {
    fn from(error: cjson::Error) -> (r: Self) {
        SignatureError::CanonicalJsonError(error)
    }
}

impl FromSpecImpl<cjson::Error> for SignatureError {
    open spec fn obeys_from_spec() -> bool {
        true
    }

    open spec fn from_spec(error: cjson::Error) -> SignatureError {
        SignatureError::CanonicalJsonError(error)
    }
}

/// What a device to device operation ends with.
pub type OlmResult<T> = Result<T, OlmError>;

/// What a group operation ends with.
pub type MegolmResult<T> = Result<T, MegolmError>;

} // verus!
