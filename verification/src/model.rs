//! The records the service keeps: devices, their public view, and usage
//! logs; and the checks that decide the schema upgrades of the tables.

use vstd::prelude::*;
use vstd::string::*;
use crate::crypto::{hash_token, is_uuid_v4_text, new_device_uuid, token_hash, TokenError};
use crate::text::{contains_text, text_contains};

verus! {

/// A registered device. Only the hash of its token is kept.
#[derive(Debug, PartialEq, Eq)]
pub struct Device {
    pub uuid: String,
    pub hash_token: String,
    pub name: String,
    pub last_sync_id: i64,
    pub is_active: bool,
}

/// What other devices and the admin see of a device: no token hash.
#[derive(Debug, PartialEq, Eq)]
pub struct PubDevice {
    pub uuid: String,
    pub name: String,
    pub last_sync_id: i64,
    pub is_active: bool,
}

/// One usage record of a device: `duration` of use of `app` from `timestamp`.
#[derive(Debug, PartialEq, Eq)]
pub struct Log {
    pub id: i64,
    pub device_uuid: String,
    pub app: String,
    pub timestamp: i64,
    pub duration: i64,
}

impl Device {
    /// A new device named `name` whose token is `token`, with a fresh random
    /// identifier. It starts inactive, waiting for the admin's approval, and
    /// has synchronised nothing yet. When the operating system's generator
    /// fails, no identifier can be drawn and the error says so.
    pub fn new(name: String, token: &String) -> (r: Result<Device, TokenError>)
        ensures
            r matches Ok(d) ==> {
                &&& is_uuid_v4_text(d.uuid@)
                &&& d.hash_token@ == token_hash(token@)
                &&& d.name@ == name@
                &&& d.last_sync_id == 0
                &&& !d.is_active
            },
    {
        let uuid = new_device_uuid()?;
        Ok(Device::with_uuid(uuid, name, token.as_str()))
    }

    /// A new device with the given identifier, named `name`, whose token is
    /// `token`; inactive and with nothing synchronised.
    pub fn with_uuid(uuid: String, name: String, token: &str) -> (d: Device)
        ensures
            d.uuid@ == uuid@,
            d.hash_token@ == token_hash(token@),
            d.name@ == name@,
            d.last_sync_id == 0,
            !d.is_active,
    {
        let hash_token = hash_token(token);
        Device { uuid, hash_token, name, last_sync_id: 0, is_active: false }
    }

    /// The public view of this device.
    pub fn to_pub(&self) -> (p: PubDevice)
        ensures
            p.uuid@ == self.uuid@,
            p.name@ == self.name@,
            p.last_sync_id == self.last_sync_id,
            p.is_active == self.is_active,
    {
        PubDevice {
            uuid: self.uuid.clone(),
            name: self.name.clone(),
            last_sync_id: self.last_sync_id,
            is_active: self.is_active,
        }
    }
}

/// Whether the `devices` table, whose column names are `columns`, lacks the
/// `is_active` column and has to gain it. Devices already in the table get
/// the column's default, inactive.
pub fn needs_is_active_column(columns: &Vec<String>) -> (r: bool)
    ensures
        r == !(exists|i: int| 0 <= i < columns@.len() && #[trigger] columns@[i]@ == "is_active"@),
{
    let target = String::from_str("is_active");
    let mut i: usize = 0;
    while i < columns.len()
        invariant
            target@ == "is_active"@,
            0 <= i <= columns@.len(),
            forall|j: int| 0 <= j < i ==> #[trigger] columns@[j]@ != "is_active"@,
        decreases columns@.len() - i,
    {
        if columns[i] == target {
            return false;
        }
        i = i + 1;
    }
    true
}

/// The key clause that the current `logs` table declares.
pub const LOGS_PRIMARY_KEY_CLAUSE: &'static str = "PRIMARY KEY (device_uuid, id)";

/// Whether the `logs` table, whose `CREATE` statement is `ddl` (absent when
/// there is no such table), has to be rebuilt with the composite key of
/// device and log identifier.
pub fn logs_table_needs_migration(ddl: Option<&str>) -> (r: bool)
    ensures
        r == match ddl {
            Some(d) => !contains_text(d@, LOGS_PRIMARY_KEY_CLAUSE@),
            None => false,
        },
{
    match ddl {
        None => false,
        Some(d) => !text_contains(d, LOGS_PRIMARY_KEY_CLAUSE),
    }
}

} // verus!
