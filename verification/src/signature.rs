//! Verification of signed JSON objects.
//!
//! A signature covers the canonical text of the object without its
//! `signatures` and `unsigned` members. The library finds the signature,
//! strips the object and has `cjson` write the canonical text. The Ed25519
//! check itself is made by the caller's primitive, which reports its verdict
//! in a [`SignatureCheck`]; [`verify`] accepts a verdict only for exactly the
//! text, signature and key that the object and the claimed key give.

use vstd::prelude::*;
use vstd::string::StringExecFns;
use crate::error::SignatureError;
use crate::session::{DeviceIdentity, DeviceIdentityView};
use crate::json::{
    JsonModel, JsonValue, array_model, lemma_object_model_domain, lemma_object_model_last,
    object_model,
};

verus! {

/// `serde_json`'s representation of a JSON value.
#[verifier::external_type_specification]
#[verifier::external_body]
pub struct ExSerdeValue(serde_json::Value);

/// `serde_json`'s map from member names to values.
#[verifier::external_type_specification]
#[verifier::external_body]
#[verifier::reject_recursive_types(K)]
#[verifier::reject_recursive_types(V)]
pub struct ExSerdeMap<K, V>(serde_json::Map<K, V>);

/// The JSON value that a `serde_json::Value` holds. A number that
/// `serde_json` keeps as a float is a fraction.
pub uninterp spec fn serde_model(value: serde_json::Value) -> JsonModel;

/// The members that a `serde_json::Map` holds.
pub uninterp spec fn serde_members(members: serde_json::Map<String, serde_json::Value>) -> Map<
    Seq<char>,
    JsonModel,
>;

/// The canonical text that `cjson::to_string` writes for a value that has one.
pub uninterp spec fn canonical_text(value: JsonModel) -> Seq<char>;

/// Whether a value has a canonical form: every number in it is whole and
/// lies in the signed 64-bit range.
pub open spec fn has_canonical_form(value: JsonModel) -> bool
    decreases value,
{
    match value {
        JsonModel::Number(n) => i64::MIN <= n <= i64::MAX,
        JsonModel::Fraction => false,
        JsonModel::Array(items) => forall|i: int|
            0 <= i < items.len() ==> has_canonical_form(#[trigger] items[i]),
        JsonModel::Object(members) => forall|name: Seq<char>|
            members.dom().finite() && members.contains_key(name) ==> has_canonical_form(
                #[trigger] members[name],
            ),
        _ => true,
    }
}

/// The JSON values that a list of `serde_json::Value`s holds.
pub open spec fn serde_models(values: Seq<serde_json::Value>) -> Seq<JsonModel> {
    values.map_values(|value: serde_json::Value| serde_model(value))
}

/// `serde_json::Value::Null` holds null.
#[verifier::external_body]
fn serde_null() -> (r: serde_json::Value)
    ensures
        serde_model(r) == JsonModel::Null,
{
    serde_json::Value::Null
}

/// `serde_json::Value::Bool` holds the truth value that it is made of.
#[verifier::external_body]
fn serde_bool(value: bool) -> (r: serde_json::Value)
    ensures
        serde_model(r) == JsonModel::Bool(value),
{
    serde_json::Value::Bool(value)
}

/// `serde_json::Value::from` an `i64` holds that number.
#[verifier::external_body]
fn serde_integer(value: i64) -> (r: serde_json::Value)
    ensures
        serde_model(r) == JsonModel::Number(value as int),
{
    serde_json::Value::from(value)
}

/// `serde_json::Value::from` a `u64` holds that number.
#[verifier::external_body]
fn serde_unsigned(value: u64) -> (r: serde_json::Value)
    ensures
        serde_model(r) == JsonModel::Number(value as int),
{
    serde_json::Value::from(value)
}

/// `serde_json::Value::from` a `&str` holds that text.
#[verifier::external_body]
fn serde_text(value: &str) -> (r: serde_json::Value)
    ensures
        serde_model(r) == JsonModel::Text(value@),
{
    serde_json::Value::from(value)
}

/// `serde_json::Value::Array` holds the values that it is made of, in their
/// order.
#[verifier::external_body]
fn serde_array(items: Vec<serde_json::Value>) -> (r: serde_json::Value)
    ensures
        serde_model(r) == JsonModel::Array(serde_models(items@)),
{
    serde_json::Value::Array(items)
}

/// The members of an object without members.
pub open spec fn no_members() -> Map<Seq<char>, JsonModel> {
    Map::empty()
}

/// `serde_json::Map::new` holds no member.
#[verifier::external_body]
fn serde_map_new() -> (r: serde_json::Map<String, serde_json::Value>)
    ensures
        serde_members(r) == no_members(),
{
    serde_json::Map::new()
}

/// `serde_json::Map::insert` binds the name to the value, in the place of
/// what the name was bound to, and leaves the other members as they were.
#[verifier::external_body]
fn serde_map_insert(
    members: &mut serde_json::Map<String, serde_json::Value>,
    name: String,
    value: serde_json::Value,
)
    ensures
        serde_members(*final(members)) == serde_members(*old(members)).insert(
            name@,
            serde_model(value),
        ),
{
    members.insert(name, value);
}

/// `serde_json::Value::Object` holds the members of the map that it is made
/// of.
#[verifier::external_body]
fn serde_object(members: serde_json::Map<String, serde_json::Value>) -> (r: serde_json::Value)
    ensures
        serde_model(r) == JsonModel::Object(serde_members(members)),
{
    serde_json::Value::Object(members)
}

/// Builds the `serde_json::Value` that holds the same JSON value.
fn to_serde(value: &JsonValue) -> (r: serde_json::Value)
    ensures
        serde_model(r) == value.model(),
    decreases value,
{
    match value {
        JsonValue::Null => serde_null(),
        JsonValue::Bool(b) => serde_bool(*b),
        JsonValue::Integer(n) => serde_integer(*n),
        JsonValue::Unsigned(n) => serde_unsigned(*n),
        JsonValue::Text(s) => serde_text(s.as_str()),
        JsonValue::Array(items) => {
            let mut converted: Vec<serde_json::Value> = Vec::new();
            let mut i: usize = 0;
            while i < items.len()
                invariant
                    i <= items.len(),
                    converted.len() == i,
                    decreases_to!(*value => *items),
                    forall|j: int|
                        0 <= j < i ==> serde_model(#[trigger] converted@[j]) == items@[j].model(),
                decreases items.len() - i,
            {
                assert(decreases_to!(*items => items[i as int]));
                let item = to_serde(&items[i]);
                converted.push(item);
                i = i + 1;
            }
            assert(serde_models(converted@) =~= array_model(items@));
            serde_array(converted)
        },
        JsonValue::Object(members) => {
            let mut map = serde_map_new();
            let mut i: usize = 0;
            assert(members@.take(0) =~= Seq::empty());
            while i < members.len()
                invariant
                    i <= members.len(),
                    decreases_to!(*value => *members),
                    serde_members(map) == object_model(members@.take(i as int)),
                decreases members.len() - i,
            {
                assert(decreases_to!(*members => members[i as int]));
                assert(members@.take(i + 1).drop_last() =~= members@.take(i as int));
                let member = to_serde(&members[i].1);
                serde_map_insert(&mut map, members[i].0.clone(), member);
                i = i + 1;
            }
            assert(members@.take(members.len() as int) =~= members@);
            serde_object(map)
        },
    }
}

/// Calls `cjson::to_string`. It fails exactly on a value that holds a number
/// which `serde_json` cannot give as an `i64`, that is a fraction or a number
/// outside the signed 64-bit range; otherwise its text depends on nothing but
/// the JSON value, members being written sorted by name.
#[verifier::external_body]
fn cjson_to_string(value: &serde_json::Value) -> (r: Result<String, cjson::Error>)
    ensures
        r is Ok <==> has_canonical_form(serde_model(*value)),
        r matches Ok(text) ==> text@ == canonical_text(serde_model(*value)),
{
    cjson::to_string(value)
}

/// The canonical text of a value.
pub fn canonical_json(value: &JsonValue) -> (r: Result<String, cjson::Error>)
    ensures
        r is Ok <==> has_canonical_form(value.model()),
        r matches Ok(text) ==> text@ == canonical_text(value.model()),
{
    let converted = to_serde(value);
    cjson_to_string(&converted)
}

/// The key that a signature is claimed to have been made with.
#[derive(Debug, PartialEq, Eq)]
pub struct SigningKey {
    /// The user that the key belongs to.
    pub user_id: String,
    /// The name under which the key signs, such as `ed25519:DEVICEID`.
    pub key_id: String,
    /// The public key.
    pub key: String,
}

/// A [`SigningKey`] as a mathematical value.
pub struct SigningKeyView {
    pub user_id: Seq<char>,
    pub key_id: Seq<char>,
    pub key: Seq<char>,
}

impl View for SigningKey {
    type V = SigningKeyView;

    open spec fn view(&self) -> SigningKeyView {
        SigningKeyView { user_id: self.user_id@, key_id: self.key_id@, key: self.key@ }
    }
}

/// What the Ed25519 primitive has to check: that `signature` is a signature
/// of `message` under `key`.
#[derive(Debug, PartialEq, Eq)]
pub struct SignedPayload {
    /// The canonical text of the object without `signatures` and `unsigned`.
    pub message: String,
    pub signature: String,
    pub key: String,
}

/// A [`SignedPayload`] as a mathematical value.
pub struct SignedPayloadView {
    pub message: Seq<char>,
    pub signature: Seq<char>,
    pub key: Seq<char>,
}

impl View for SignedPayload {
    type V = SignedPayloadView;

    open spec fn view(&self) -> SignedPayloadView {
        SignedPayloadView { message: self.message@, signature: self.signature@, key: self.key@ }
    }
}

/// The verdict of the Ed25519 primitive on one payload.
#[derive(Debug, PartialEq, Eq)]
pub struct SignatureCheck {
    pub payload: SignedPayload,
    /// Whether the primitive found the signature valid.
    pub valid: bool,
}

/// A [`SignatureCheck`] as a mathematical value.
pub struct SignatureCheckView {
    pub payload: SignedPayloadView,
    pub valid: bool,
}

impl View for SignatureCheck {
    type V = SignatureCheckView;

    open spec fn view(&self) -> SignatureCheckView {
        SignatureCheckView { payload: self.payload@, valid: self.valid }
    }
}

/// Why an object is not authenticated.
pub enum Refusal {
    NotAnObject,
    NoSignatureFound,
    NoCanonicalForm,
    Rejected,
}

/// The refusal that an error stands for.
pub open spec fn refusal_of(error: SignatureError) -> Refusal {
    match error {
        SignatureError::NotAnObject => Refusal::NotAnObject,
        SignatureError::NoSignatureFound => Refusal::NoSignatureFound,
        SignatureError::CanonicalJsonError(_) => Refusal::NoCanonicalForm,
        SignatureError::VerificationError => Refusal::Rejected,
    }
}

/// The member of an object that is bound to a name.
pub open spec fn member(value: JsonModel, name: Seq<char>) -> Option<JsonModel> {
    match value {
        JsonModel::Object(members) => if members.contains_key(name) {
            Some(members[name])
        } else {
            None
        },
        _ => None,
    }
}

/// The signature that an object carries for a key: the text at
/// `signatures`, then the user, then the key's name.
pub open spec fn claimed_signature(value: JsonModel, key: SigningKeyView) -> Option<Seq<char>> {
    match member(value, "signatures"@) {
        Some(signatures) => match member(signatures, key.user_id) {
            Some(of_user) => match member(of_user, key.key_id) {
                Some(JsonModel::Text(signature)) => Some(signature),
                _ => None,
            },
            None => None,
        },
        None => None,
    }
}

/// The part of an object that a signature covers: all but the members
/// `signatures` and `unsigned`.
pub open spec fn signed_part(value: JsonModel) -> JsonModel {
    match value {
        JsonModel::Object(members) => JsonModel::Object(
            members.remove("signatures"@).remove("unsigned"@),
        ),
        other => other,
    }
}

/// What has to be checked for an object and a claimed key, or why nothing
/// can be checked.
pub open spec fn signing_input(value: JsonModel, key: SigningKeyView) -> Result<
    SignedPayloadView,
    Refusal,
> {
    if !(value is Object) {
        Err(Refusal::NotAnObject)
    } else if claimed_signature(value, key) is None {
        Err(Refusal::NoSignatureFound)
    } else if !has_canonical_form(signed_part(value)) {
        Err(Refusal::NoCanonicalForm)
    } else {
        Ok(
            SignedPayloadView {
                message: canonical_text(signed_part(value)),
                signature: claimed_signature(value, key)->0,
                key: key.key,
            },
        )
    }
}

/// Whether an object is authenticated by a verdict of the primitive: the
/// verdict has to be `valid`, and made on exactly the payload of the object.
pub open spec fn verification(
    value: JsonModel,
    key: SigningKeyView,
    check: SignatureCheckView,
) -> Result<(), Refusal> {
    match signing_input(value, key) {
        Err(refusal) => Err(refusal),
        Ok(payload) => if check.valid && check.payload == payload {
            Ok(())
        } else {
            Err(Refusal::Rejected)
        },
    }
}

/// Finds the signature that `value` carries for `key`.
fn find_signature<'a>(value: &'a JsonValue, key: &SigningKey) -> (r: Option<&'a String>)
    ensures
        match claimed_signature(value.model(), key@) {
            Some(signature) => r matches Some(found) && found@ == signature,
            None => r is None,
        },
{
    let signatures = match value.get("signatures") {
        Some(signatures) => signatures,
        None => { return None; },
    };
    let of_user = match signatures.get(key.user_id.as_str()) {
        Some(of_user) => of_user,
        None => { return None; },
    };
    match of_user.get(key.key_id.as_str()) {
        Some(signature) => signature.as_text(),
        None => None,
    }
}

/// Prepares the check of the signature that `value` carries for
/// `claimed_key`: the canonical text of the signed part, the signature and
/// the key. Nothing is changed.
pub fn signed_payload(value: &JsonValue, claimed_key: &SigningKey) -> (r: Result<
    SignedPayload,
    SignatureError,
>)
    ensures
        match r {
            Ok(payload) => signing_input(value.model(), claimed_key@) == Ok::<
                SignedPayloadView,
                Refusal,
            >(payload@),
            Err(error) => signing_input(value.model(), claimed_key@) == Err::<
                SignedPayloadView,
                Refusal,
            >(refusal_of(error)),
        },
{
    if !value.is_object() {
        return Err(SignatureError::NotAnObject);
    }
    let signature = match find_signature(value, claimed_key) {
        Some(signature) => signature.clone(),
        None => { return Err(SignatureError::NoSignatureFound); },
    };
    let stripped = value.without("signatures").without("unsigned");
    match canonical_json(&stripped) {
        Ok(message) => Ok(SignedPayload { message, signature, key: claimed_key.key.clone() }),
        Err(error) => Err(SignatureError::from(error)),
    }
}

/// Authenticates `value` against `claimed_key`, given the verdict of the
/// Ed25519 primitive. Nothing is changed.
pub fn verify(value: &JsonValue, claimed_key: &SigningKey, check: &SignatureCheck) -> (r: Result<
    (),
    SignatureError,
>)
    ensures
        match r {
            Ok(_) => verification(value.model(), claimed_key@, check@) is Ok,
            Err(error) => verification(value.model(), claimed_key@, check@) == Err::<(), Refusal>(
                refusal_of(error),
            ),
        },
{
    let payload = match signed_payload(value, claimed_key) {
        Ok(payload) => payload,
        Err(error) => { return Err(error); },
    };
    if check.valid && check.payload.message == payload.message && check.payload.signature
        == payload.signature && check.payload.key == payload.key {
        Ok(())
    } else {
        Err(SignatureError::VerificationError)
    }
}

/// The name under which a device's signing key signs.
pub open spec fn device_key_id(device_id: Seq<char>) -> Seq<char> {
    "ed25519:"@ + device_id
}

/// The key that a device is claimed to sign with.
pub open spec fn device_signing_key(device: DeviceIdentityView) -> SigningKeyView {
    SigningKeyView {
        user_id: device.user_id,
        key_id: device_key_id(device.device_id),
        key: device.signing_key,
    }
}

/// The key that a device is claimed to sign with.
pub fn signing_key_of(device: &DeviceIdentity) -> (r: SigningKey)
    ensures
        r@ == device_signing_key(device@),
{
    let mut key_id = "ed25519:".to_owned();
    key_id.append(device.device_id.as_str());
    SigningKey { user_id: device.user_id.clone(), key_id, key: device.signing_key.clone() }
}

/// Authenticates what is claimed of a device by the signature that the
/// device has put on its own keys, given the verdict of the Ed25519
/// primitive. The identity is handed back as verified only if the signature
/// is; nothing else of it is changed.
pub fn authenticate_device(
    device: DeviceIdentity,
    signed_keys: &JsonValue,
    check: &SignatureCheck,
) -> (r: Result<DeviceIdentity, SignatureError>)
    ensures
        match r {
            Ok(verified) => verification(signed_keys.model(), device_signing_key(device@), check@)
                is Ok && verified@ == (DeviceIdentityView { verified: true, ..device@ }),
            Err(error) => verification(signed_keys.model(), device_signing_key(device@), check@)
                == Err::<(), Refusal>(refusal_of(error)),
        },
{
    let claimed_key = signing_key_of(&device);
    match verify(signed_keys, &claimed_key, check) {
        Ok(_) => Ok(
            DeviceIdentity {
                user_id: device.user_id,
                device_id: device.device_id,
                identity_key: device.identity_key,
                signing_key: device.signing_key,
                verified: true,
            },
        ),
        Err(error) => Err(error),
    }
}

/// Whether no two members of a list carry the same name.
pub open spec fn distinct_names(members: Seq<(String, JsonValue)>) -> bool {
    forall|i: int, j: int|
        0 <= i < j < members.len() ==> (#[trigger] members[i]).0@ != (#[trigger] members[j]).0@
}

/// Whether each member of `a` occurs in `b`, with its name and its meaning.
pub open spec fn members_among(a: Seq<(String, JsonValue)>, b: Seq<(String, JsonValue)>) -> bool {
    forall|i: int|
        0 <= i < a.len() ==> exists|j: int|
            0 <= j < b.len() && (#[trigger] b[j]).0@ == (#[trigger] a[i]).0@ && b[j].1.model()
                == a[i].1.model()
}

proof fn lemma_distinct_names_bind_each_member(members: Seq<(String, JsonValue)>, at: int)
    requires
        distinct_names(members),
        0 <= at < members.len(),
    ensures
        object_model(members).contains_key(members[at].0@),
        object_model(members)[members[at].0@] == members[at].1.model(),
{
    lemma_object_model_last(members, at);
}

proof fn lemma_members_among_models(a: Seq<(String, JsonValue)>, b: Seq<(String, JsonValue)>)
    requires
        distinct_names(a),
        distinct_names(b),
        members_among(a, b),
    ensures
        forall|name: Seq<char>| #[trigger]
            object_model(a).contains_key(name) ==> object_model(
                b,
            ).contains_key(name) && object_model(b)[name]
                == object_model(a)[name],
{
    assert forall|name: Seq<char>| #[trigger]
        object_model(a).contains_key(name) implies object_model(
        b,
    ).contains_key(name) && object_model(b)[name] == object_model(
        a,
    )[name] by {
        lemma_object_model_domain(a, name);
        let i = choose|i: int| 0 <= i < a.len() && (#[trigger] a[i]).0@ == name;
        let j = choose|j: int|
            0 <= j < b.len() && (#[trigger] b[j]).0@ == (#[trigger] a[i]).0@ && b[j].1.model()
                == a[i].1.model();
        lemma_distinct_names_bind_each_member(a, i);
        lemma_distinct_names_bind_each_member(b, j);
    }
}

/// Writing the members of an object in another order changes neither what
/// the object means nor its canonical text, nor what has to be checked to
/// authenticate it. Both lists are without repeated names: of two members
/// with one name the later one counts, so there the order matters.
pub proof fn law_member_order_is_immaterial(a: JsonValue, b: JsonValue, key: SigningKeyView)
    requires
        a matches JsonValue::Object(members_a) && b matches JsonValue::Object(members_b)
            && distinct_names(members_a@) && distinct_names(members_b@) && members_among(
            members_a@,
            members_b@,
        ) && members_among(members_b@, members_a@),
    ensures
        a.model() == b.model(),
        canonical_text(a.model()) == canonical_text(b.model()),
        canonical_text(signed_part(a.model())) == canonical_text(signed_part(b.model())),
        signing_input(a.model(), key) == signing_input(b.model(), key),
{
    let members_a = a->Object_0@;
    let members_b = b->Object_0@;
    lemma_members_among_models(members_a, members_b);
    lemma_members_among_models(members_b, members_a);
    assert(object_model(members_a) =~= object_model(members_b));
}

/// Once an object has been authenticated by a verdict, the same verdict
/// authenticates another object only if that one has the very same signed
/// text, signature and key: a change to any signed member that changes the
/// canonical text makes verification fail.
pub proof fn law_verdict_binds_signed_text(
    signed: JsonModel,
    changed: JsonModel,
    key: SigningKeyView,
    check: SignatureCheckView,
)
    requires
        verification(signed, key, check) is Ok,
    ensures
        verification(changed, key, check) is Ok <==> signing_input(changed, key) == signing_input(
            signed,
            key,
        ),
        canonical_text(signed_part(changed)) != canonical_text(signed_part(signed))
            ==> verification(changed, key, check) is Err,
{
}

/// What lies under `unsigned` is not covered by a signature: changing,
/// adding or removing that member changes nothing of what is checked, as
/// long as a signature is still found.
pub proof fn law_unsigned_member_is_not_signed(
    value: JsonModel,
    replacement: JsonModel,
    key: SigningKeyView,
)
    requires
        value is Object,
    ensures
        signing_input(JsonModel::Object(value->Object_0.insert("unsigned"@, replacement)), key)
            == signing_input(value, key),
        signing_input(JsonModel::Object(value->Object_0.remove("unsigned"@)), key)
            == signing_input(value, key),
{
    reveal_strlit("unsigned");
    reveal_strlit("signatures");
    let members = value->Object_0;
    assert("unsigned"@ != "signatures"@) by {
        assert("unsigned"@.len() == 8);
        assert("signatures"@.len() == 10);
    }
    assert(members.insert("unsigned"@, replacement).remove("signatures"@).remove("unsigned"@)
        =~= members.remove("signatures"@).remove("unsigned"@));
    assert(members.remove("unsigned"@).remove("signatures"@).remove("unsigned"@)
        =~= members.remove("signatures"@).remove("unsigned"@));
}

} // verus!
