//! The admin forms and the outcome of the admin's updates: reading the
//! posted fields, the answer when no row was touched, and where to go next.

use vstd::prelude::*;
use vstd::string::*;
use crate::reply::{bad_request, is_error, not_found, HttpError};
use crate::text::{decimal, parse_i64, parse_i64_spec, push_decimal_i64, trim, trim_spec};

verus! {

/// The new name and last synchronised log id of a device.
#[derive(Debug, PartialEq, Eq)]
pub struct DeviceUpdate {
    pub name: String,
    pub last_sync_id: i64,
}

/// The new fields of a log.
#[derive(Debug, PartialEq, Eq)]
pub struct LogUpdate {
    pub app: String,
    pub timestamp: i64,
    pub duration: i64,
}

/// Reads the device form: the name is trimmed, the last synchronised id is
/// the trimmed field read as an `i64`; when it is not one the answer is 400.
pub fn parse_device_form(name: &str, last_sync_id: &str) -> (r: Result<DeviceUpdate, HttpError>)
    ensures
        match parse_i64_spec(trim_spec(last_sync_id@)) {
            Some(v) => r matches Ok(u) && u.name@ == trim_spec(name@) && u.last_sync_id == v,
            None => r matches Err(e) && is_error(e, 400, "last_sync_id must be a number"@),
        },
{
    let id = match parse_i64(trim(last_sync_id)) {
        Some(v) => v,
        None => return Err(bad_request("last_sync_id must be a number")),
    };
    Ok(DeviceUpdate { name: String::from_str(trim(name)), last_sync_id: id })
}

/// Reads the log form: the app name is trimmed, the timestamp and the
/// duration are their trimmed fields read as `i64`s. A timestamp that is not
/// a number is reported first, then a duration that is not one; both with 400.
pub fn parse_log_form(app: &str, timestamp: &str, duration: &str) -> (r: Result<LogUpdate, HttpError>)
    ensures
        match (parse_i64_spec(trim_spec(timestamp@)), parse_i64_spec(trim_spec(duration@))) {
            (Some(t), Some(d)) => r matches Ok(u) && u.app@ == trim_spec(app@) && u.timestamp == t
                && u.duration == d,
            (None, _) => r matches Err(e) && is_error(e, 400, "timestamp must be a number"@),
            (Some(_), None) => r matches Err(e) && is_error(e, 400, "duration must be a number"@),
        },
{
    let t = match parse_i64(trim(timestamp)) {
        Some(v) => v,
        None => return Err(bad_request("timestamp must be a number")),
    };
    let d = match parse_i64(trim(duration)) {
        Some(v) => v,
        None => return Err(bad_request("duration must be a number")),
    };
    Ok(LogUpdate { app: String::from_str(trim(app)), timestamp: t, duration: d })
}

/// The answer to an update or delete that touched `rows` rows: 404 with
/// `message` when it touched none.
pub fn require_rows_affected(rows: u64, message: &str) -> (r: Result<(), HttpError>)
    ensures
        rows == 0 ==> (r matches Err(e) && is_error(e, 404, message@)),
        rows != 0 ==> r is Ok,
{
    if rows == 0 {
        Err(not_found(message))
    } else {
        Ok(())
    }
}

/// The answer when a looked-up row may be missing: 404 with `message` when
/// it is.
pub fn require_found<T>(row: Option<T>, message: &str) -> (r: Result<T, HttpError>)
    ensures
        match row {
            Some(v) => r == Ok::<T, HttpError>(v),
            None => r matches Err(e) && is_error(e, 404, message@),
        },
{
    match row {
        Some(v) => Ok(v),
        None => Err(not_found(message)),
    }
}

/// Where the admin goes after saving a device: that device's page.
pub fn device_page_location(uuid: &str) -> (l: String)
    ensures
        l@ == "/admin/devices/"@ + uuid@,
{
    let mut l = String::from_str("/admin/devices/");
    l.append(uuid);
    l
}

/// Where the admin goes after saving a log: that log's page.
pub fn log_page_location(device_uuid: &str, id: i64) -> (l: String)
    ensures
        l@ == "/admin/logs/"@ + device_uuid@ + "/"@ + decimal(id as int),
{
    let mut l = String::from_str("/admin/logs/");
    l.append(device_uuid);
    l.append("/");
    push_decimal_i64(&mut l, id);
    l
}

} // verus!
