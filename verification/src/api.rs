//! The rules of the device API: who a request comes from, whether that
//! device may act, and what registration and the status request answer.

use vstd::prelude::*;
use vstd::string::*;
use crate::crypto::{
    base64_url_no_pad, generate_auth_token, is_url_safe_base64_char, is_uuid_v4_text, token_hash,
    TokenError,
};
use crate::model::Device;
use crate::reply::{forbidden, internal_error, is_error, unauthorized, HttpError};
use crate::text::{chars_of, range_equals};

verus! {

/// The answer of the health check.
pub fn check() -> (s: &'static str)
    ensures
        s@ == "Time Tracker Backend v1"@,
{
    "Time Tracker Backend v1"
}

/// What looking up the device of a token in the database gave.
pub enum DeviceLookup {
    /// The device whose stored hash is the token's.
    Found(Device),
    /// No device has that hash: the token is wrong, or its device was deleted.
    NotFound,
    /// The database failed, with this message.
    Failed(String),
}

/// The device a request comes from: a token that matches no device is
/// answered 401, a database failure 500.
pub fn authenticate(lookup: DeviceLookup) -> (r: Result<Device, HttpError>)
    ensures
        match lookup {
            DeviceLookup::Found(d) => r == Ok::<Device, HttpError>(d),
            DeviceLookup::NotFound => r matches Err(e) && is_error(e, 401, "invalid token"@),
            DeviceLookup::Failed(m) => r matches Err(e) && is_error(e, 500, m@),
        },
{
    match lookup {
        DeviceLookup::Found(d) => Ok(d),
        DeviceLookup::NotFound => Err(unauthorized("invalid token")),
        DeviceLookup::Failed(m) => Err(internal_error(m)),
    }
}

/// The device a request comes from, which must have been approved: a device
/// that still waits for the admin is answered 403.
pub fn authenticate_active(lookup: DeviceLookup) -> (r: Result<Device, HttpError>)
    ensures
        match lookup {
            DeviceLookup::Found(d) => if d.is_active {
                r == Ok::<Device, HttpError>(d)
            } else {
                r matches Err(e) && is_error(e, 403, "device is waiting for admin approval"@)
            },
            DeviceLookup::NotFound => r matches Err(e) && is_error(e, 401, "invalid token"@),
            DeviceLookup::Failed(m) => r matches Err(e) && is_error(e, 500, m@),
        },
{
    let d = authenticate(lookup)?;
    if !d.is_active {
        return Err(forbidden("device is waiting for admin approval"));
    }
    Ok(d)
}

/// The prefix of a bearer `Authorization` header.
pub const BEARER_PREFIX: &'static str = "Bearer ";

/// The token of an `Authorization` header (absent when the request has none,
/// or when it is not visible ASCII): the text after `Bearer `, which must not
/// be empty.
pub open spec fn bearer_token_spec(authorization: Option<Seq<char>>) -> Option<Seq<char>> {
    match authorization {
        Some(h) => {
            let p = BEARER_PREFIX@;
            if h.len() > p.len() && h.subrange(0, p.len() as int) == p {
                Some(h.subrange(p.len() as int, h.len() as int))
            } else {
                None
            }
        },
        None => None,
    }
}

/// A header carries a token exactly when it is `Bearer ` followed by a
/// non-empty text, and the token is all of that text.
pub proof fn lemma_bearer_token_is_the_rest_of_the_header(h: Seq<char>, t: Seq<char>)
    ensures
        bearer_token_spec(Some(h)) == Some(t) <==> (h == "Bearer "@ + t && t.len() > 0),
{
    reveal_strlit("Bearer ");
    broadcast use vstd::string::group_string_axioms;
    let p = "Bearer "@;
    if h == p + t && t.len() > 0 {
        assert(h.subrange(0, p.len() as int) =~= p);
        assert(h.subrange(p.len() as int, h.len() as int) =~= t);
    }
    if bearer_token_spec(Some(h)) == Some(t) {
        assert(h =~= h.subrange(0, p.len() as int) + h.subrange(p.len() as int, h.len() as int));
    }
}

/// The token of an `Authorization` header; 401 when there is none.
pub fn bearer_token(authorization: Option<&str>) -> (r: Result<String, HttpError>)
    ensures
        match bearer_token_spec(
            match authorization {
                Some(h) => Some(h@),
                None => None,
            },
        ) {
            Some(t) => r matches Ok(s) && s@ == t,
            None => r matches Err(e) && is_error(e, 401, "missing bearer token"@),
        },
{
    match authorization {
        None => Err(unauthorized("missing bearer token")),
        Some(h) => {
            let v = chars_of(h);
            let p = chars_of(BEARER_PREFIX);
            if v.len() > p.len() && range_equals(&v, 0, p.len(), &p) {
                Ok(String::from_str(h.substring_char(p.len(), v.len())))
            } else {
                Err(unauthorized("missing bearer token"))
            }
        },
    }
}

/// What the status request tells a device about itself.
#[derive(Debug, PartialEq, Eq)]
pub struct StatusReturn {
    pub uuid: String,
    pub name: String,
    pub is_active: bool,
}

/// The status of the device a request comes from. A device that waits for
/// approval may ask for it.
pub fn device_status(lookup: DeviceLookup) -> (r: Result<StatusReturn, HttpError>)
    ensures
        match lookup {
            DeviceLookup::Found(d) => r matches Ok(s) && s.uuid == d.uuid && s.name == d.name
                && s.is_active == d.is_active,
            DeviceLookup::NotFound => r matches Err(e) && is_error(e, 401, "invalid token"@),
            DeviceLookup::Failed(m) => r matches Err(e) && is_error(e, 500, m@),
        },
{
    let d = authenticate(lookup)?;
    Ok(StatusReturn { uuid: d.uuid, name: d.name, is_active: d.is_active })
}

/// What registration hands back to the new device.
#[derive(Debug, PartialEq, Eq)]
pub struct RegisterReturn {
    pub uuid: String,
    pub token: String,
    pub is_active: bool,
}

/// Registers a device named `name`: a fresh token, and a new device that
/// stores the token's hash and waits for approval. The answer hands the
/// device its identifier and the token, which is not kept anywhere else.
/// The caller stores the device. When the operating system's generator
/// fails, the answer is 500 with the generator's message.
pub fn register(name: String) -> (r: Result<(Device, RegisterReturn), HttpError>)
    ensures
        match r {
            Ok((d, ret)) => {
                &&& d.name@ == name@
                &&& is_uuid_v4_text(d.uuid@)
                &&& d.hash_token@ == token_hash(ret.token@)
                &&& exists|b: Seq<u8>| b.len() == 32 && ret.token@ == base64_url_no_pad(b)
                &&& ret.token@.len() == 43
                &&& forall|i: int|
                    0 <= i < ret.token@.len() ==> is_url_safe_base64_char(#[trigger] ret.token@[i])
                &&& d.last_sync_id == 0
                &&& !d.is_active
                &&& ret.uuid@ == d.uuid@
                &&& ret.is_active == d.is_active
            },
            Err(e) => e.status == 500,
        },
{
    let token = match generate_auth_token() {
        Ok(t) => t,
        Err(TokenError::RandomnessUnavailable { message }) => return Err(internal_error(message)),
    };
    let device = match Device::new(name, &token) {
        Ok(d) => d,
        Err(TokenError::RandomnessUnavailable { message }) => return Err(internal_error(message)),
    };
    let ret = RegisterReturn { uuid: device.uuid.clone(), token, is_active: device.is_active };
    Ok((device, ret))
}

} // verus!
