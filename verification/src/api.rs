//! The claim API consumed by the transport layer: payload validation,
//! claim insertion, and the registry listing, each returning the structured
//! response the transport serializes.

use vstd::prelude::*;

use vstd::string::StringExecFns;

use crate::registry::{snapshot_of, Registry, UserSnapshot, UserView};

verus! {

/// A claimed display name must have at least this many characters.
pub const MIN_NAME_CHARS: usize = 3;

/// A device identifier must have at least this many characters.
pub const MIN_IDENTIFIER_CHARS: usize = 10;

/// The structured response handed to the transport layer.
pub struct ResponseStatus<T> {
    pub status: bool,
    pub data: T,
    pub timestamp: Option<u64>,
}

/// A claim request as the transport hands it over, before validation.
pub struct UserPostPayload {
    pub name: String,
    pub mac_address: String,
}

/// One field of a claim request that failed validation.
#[derive(Debug, Clone, Copy, PartialEq, Eq, Structural)]
pub enum FieldError {
    NameTooShort,
    MacAddressTooShort,
}

/// A payload that passed validation, carried as proof of that fact.
pub struct ValidatedJson<T>(pub T);

impl FieldError {
    /// The human-readable wording of this validation failure.
    pub fn message(&self) -> (r: String)
        ensures
            *self == FieldError::NameTooShort ==> r@ == "Name must be at least 3 characters"@,
            *self == FieldError::MacAddressTooShort ==> r@ == "Invalid MAC address length"@,
    {
        match self {
            FieldError::NameTooShort => String::from_str("Name must be at least 3 characters"),
            FieldError::MacAddressTooShort => String::from_str("Invalid MAC address length"),
        }
    }
}

/// The payload is valid exactly when both fields are long enough.
pub open spec fn payload_valid(name: Seq<char>, mac_address: Seq<char>) -> bool {
    name.len() >= MIN_NAME_CHARS && mac_address.len() >= MIN_IDENTIFIER_CHARS
}

/// The validation failures of a payload: one per field that is too short,
/// and nothing else.
pub fn payload_errors(payload: &UserPostPayload) -> (errs: Vec<FieldError>)
    ensures
        errs@.len() == 0 <==> payload_valid(payload.name@, payload.mac_address@),
        errs@.contains(FieldError::NameTooShort) <==> payload.name@.len() < MIN_NAME_CHARS,
        errs@.contains(FieldError::MacAddressTooShort) <==> payload.mac_address@.len()
            < MIN_IDENTIFIER_CHARS,
{
    let mut errs: Vec<FieldError> = Vec::new();
    if payload.name.as_str().unicode_len() < MIN_NAME_CHARS {
        errs.push(FieldError::NameTooShort);
    }
    if payload.mac_address.as_str().unicode_len() < MIN_IDENTIFIER_CHARS {
        errs.push(FieldError::MacAddressTooShort);
    }
    proof {
        if errs@.contains(FieldError::NameTooShort) {
            let i = choose|i: int| 0 <= i < errs@.len() && errs@[i] == FieldError::NameTooShort;
            assert(payload.name@.len() < MIN_NAME_CHARS);
        }
        if errs@.contains(FieldError::MacAddressTooShort) {
            let i = choose|i: int|
                0 <= i < errs@.len() && errs@[i] == FieldError::MacAddressTooShort;
            assert(payload.mac_address@.len() < MIN_IDENTIFIER_CHARS);
        }
        if payload.name@.len() < MIN_NAME_CHARS {
            assert(errs@[0] == FieldError::NameTooShort);
        }
        if payload.mac_address@.len() < MIN_IDENTIFIER_CHARS {
            assert(errs@[errs@.len() - 1] == FieldError::MacAddressTooShort);
        }
    }
    errs
}

/// Validate a claim request: hand back the payload wrapped as validated
/// exactly when both fields are long enough, and otherwise the exact list
/// of per-field failures, with the registry untouched by construction.
pub fn validate_payload(payload: UserPostPayload) -> (r: Result<
    ValidatedJson<UserPostPayload>,
    Vec<FieldError>,
>)
    ensures
        r is Ok <==> payload_valid(payload.name@, payload.mac_address@),
        r matches Ok(v) ==> v.0.name@ == payload.name@ && v.0.mac_address@
            == payload.mac_address@,
        r matches Err(errs) ==> {
            &&& errs@.len() > 0
            &&& (errs@.contains(FieldError::NameTooShort) <==> payload.name@.len()
                < MIN_NAME_CHARS)
            &&& (errs@.contains(FieldError::MacAddressTooShort) <==> payload.mac_address@.len()
                < MIN_IDENTIFIER_CHARS)
        },
{
    let errs = payload_errors(&payload);
    if errs.len() == 0 {
        Ok(ValidatedJson(payload))
    } else {
        Err(errs)
    }
}

/// Claim a device: insert a record for `mac_address` named `name` if and
/// only if the identifier is unclaimed. A duplicate claim is a normal
/// business outcome, reported with `status == false` and the registry left
/// exactly as it was.
pub fn claim(reg: &mut Registry, mac_address: String, name: String, now: u64) -> (r:
    ResponseStatus<String>)
    requires
        old(reg).wf(),
    ensures
        final(reg).wf(),
        r.status == !old(reg)@.contains_key(mac_address@),
        r.status ==> final(reg)@ == old(reg)@.insert(
            mac_address@,
            UserView { name: name@, time_active: now, last_seen: now },
        ),
        !r.status ==> final(reg)@ == old(reg)@,
        r.status ==> r.data@ == "ok"@,
        !r.status ==> r.data@ == "Device already claimed"@,
        r.timestamp == Some(now),
{
    match reg.insert(mac_address, name, now) {
        Ok(()) => ResponseStatus {
            status: true,
            data: String::from_str("ok"),
            timestamp: Some(now),
        },
        Err(_) => ResponseStatus {
            status: false,
            data: String::from_str("Device already claimed"),
            timestamp: Some(now),
        },
    }
}

/// List the current claims: always succeeds, with a faithful snapshot of
/// the registry and no timestamp.
pub fn list(reg: &Registry) -> (r: ResponseStatus<Vec<(String, UserSnapshot)>>)
    requires
        reg.wf(),
    ensures
        r.status,
        snapshot_of(reg@, r.data@),
        r.timestamp is None,
{
    ResponseStatus { status: true, data: reg.snapshot(), timestamp: None }
}

} // verus!
