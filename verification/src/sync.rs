//! Uploading and synchronising logs: the database writes that a request
//! makes, and what those writes do to the tables.
//!
//! A request is planned here and carried out by the caller, in one
//! transaction, write by write in the order given.

use vstd::prelude::*;
use vstd::string::*;
use crate::api::{authenticate_active, DeviceLookup};
use crate::model::{Device, Log};
use crate::admin::forms::{DeviceUpdate, LogUpdate};
use crate::reply::{bad_request, is_error, HttpError};

verus! {

/// One write to the tables.
#[derive(Debug, PartialEq, Eq)]
pub enum TableWrite {
    /// Insert the log of `device_uuid` with number `id`, or overwrite the
    /// app, timestamp and duration of the one already there.
    Upsert { device_uuid: String, id: i64, app: String, timestamp: i64, duration: i64 },
    /// Delete the log of `device_uuid` with number `id`, if there is one.
    Delete { device_uuid: String, id: i64 },
    /// Set the device's last synchronised log id to `id` if that is higher.
    RaiseLastSyncId { device_uuid: String, id: i64 },
    /// Delete every log of `device_uuid`.
    DeleteDeviceLogs { device_uuid: String },
    /// Delete the device `device_uuid`.
    DeleteDevice { device_uuid: String },
    /// Approve the device `device_uuid`, or withdraw its approval.
    SetDeviceActive { device_uuid: String, is_active: bool },
    /// Rename the device `device_uuid` and set its last synchronised log id.
    UpdateDevice { device_uuid: String, name: String, last_sync_id: i64 },
    /// Set the app, timestamp and duration of the log of `device_uuid` with
    /// number `id`, if there is one.
    UpdateLog { device_uuid: String, id: i64, app: String, timestamp: i64, duration: i64 },
}

/// A write, with its texts as character sequences.
pub enum TableWriteView {
    Upsert { device_uuid: Seq<char>, id: i64, app: Seq<char>, timestamp: i64, duration: i64 },
    Delete { device_uuid: Seq<char>, id: i64 },
    RaiseLastSyncId { device_uuid: Seq<char>, id: i64 },
    DeleteDeviceLogs { device_uuid: Seq<char> },
    DeleteDevice { device_uuid: Seq<char> },
    SetDeviceActive { device_uuid: Seq<char>, is_active: bool },
    UpdateDevice { device_uuid: Seq<char>, name: Seq<char>, last_sync_id: i64 },
    UpdateLog { device_uuid: Seq<char>, id: i64, app: Seq<char>, timestamp: i64, duration: i64 },
}

impl View for TableWrite {
    type V = TableWriteView;

    open spec fn view(&self) -> TableWriteView {
        match self {
            TableWrite::Upsert { device_uuid, id, app, timestamp, duration } => TableWriteView::Upsert {
                device_uuid: device_uuid@,
                id: *id,
                app: app@,
                timestamp: *timestamp,
                duration: *duration,
            },
            TableWrite::Delete { device_uuid, id } => TableWriteView::Delete {
                device_uuid: device_uuid@,
                id: *id,
            },
            TableWrite::RaiseLastSyncId { device_uuid, id } => TableWriteView::RaiseLastSyncId {
                device_uuid: device_uuid@,
                id: *id,
            },
            TableWrite::DeleteDeviceLogs { device_uuid } => TableWriteView::DeleteDeviceLogs {
                device_uuid: device_uuid@,
            },
            TableWrite::DeleteDevice { device_uuid } => TableWriteView::DeleteDevice {
                device_uuid: device_uuid@,
            },
            TableWrite::SetDeviceActive { device_uuid, is_active } => TableWriteView::SetDeviceActive {
                device_uuid: device_uuid@,
                is_active: *is_active,
            },
            TableWrite::UpdateDevice { device_uuid, name, last_sync_id } => TableWriteView::UpdateDevice {
                device_uuid: device_uuid@,
                name: name@,
                last_sync_id: *last_sync_id,
            },
            TableWrite::UpdateLog { device_uuid, id, app, timestamp, duration } => TableWriteView::UpdateLog {
                device_uuid: device_uuid@,
                id: *id,
                app: app@,
                timestamp: *timestamp,
                duration: *duration,
            },
        }
    }
}

/// The views of a sequence of writes.
pub open spec fn write_views(ws: Seq<TableWrite>) -> Seq<TableWriteView> {
    Seq::new(ws.len(), |i: int| ws[i]@)
}

/// The device a write is about.
pub open spec fn write_device(w: TableWriteView) -> Seq<char> {
    match w {
        TableWriteView::Upsert { device_uuid, .. } => device_uuid,
        TableWriteView::Delete { device_uuid, .. } => device_uuid,
        TableWriteView::RaiseLastSyncId { device_uuid, .. } => device_uuid,
        TableWriteView::DeleteDeviceLogs { device_uuid } => device_uuid,
        TableWriteView::DeleteDevice { device_uuid } => device_uuid,
        TableWriteView::SetDeviceActive { device_uuid, .. } => device_uuid,
        TableWriteView::UpdateDevice { device_uuid, .. } => device_uuid,
        TableWriteView::UpdateLog { device_uuid, .. } => device_uuid,
    }
}

// ---------------------------------------------------------------------------
// The plans
// ---------------------------------------------------------------------------

/// The upserts of `logs`, all filed under `device_uuid`, in order.
pub open spec fn upserts_spec(device_uuid: Seq<char>, logs: Seq<Log>) -> Seq<TableWriteView> {
    Seq::new(
        logs.len(),
        |i: int|
            TableWriteView::Upsert {
                device_uuid: device_uuid,
                id: logs[i].id,
                app: logs[i].app@,
                timestamp: logs[i].timestamp,
                duration: logs[i].duration,
            },
    )
}

/// The deletions of the logs numbered `ids` of `device_uuid`, in order.
pub open spec fn deletes_spec(device_uuid: Seq<char>, ids: Seq<i64>) -> Seq<TableWriteView> {
    Seq::new(ids.len(), |i: int| TableWriteView::Delete { device_uuid: device_uuid, id: ids[i] })
}

/// The highest log id of a non-empty sequence of logs.
pub open spec fn max_log_id(logs: Seq<Log>) -> i64
    decreases logs.len(),
{
    if logs.len() <= 1 {
        logs[0].id
    } else {
        let m = max_log_id(logs.drop_last());
        if logs.last().id > m {
            logs.last().id
        } else {
            m
        }
    }
}

/// The highest log id is the id of one of the logs, and no log has a
/// higher one.
pub proof fn lemma_max_log_id_is_the_highest(logs: Seq<Log>)
    requires
        logs.len() > 0,
    ensures
        forall|i: int| 0 <= i < logs.len() ==> #[trigger] logs[i].id <= max_log_id(logs),
        exists|i: int| 0 <= i < logs.len() && #[trigger] logs[i].id == max_log_id(logs),
    decreases logs.len(),
{
    if logs.len() > 1 {
        let p = logs.drop_last();
        lemma_max_log_id_is_the_highest(p);
        assert forall|i: int| 0 <= i < logs.len() implies #[trigger] logs[i].id <= max_log_id(logs) by {
            if i < p.len() {
                assert(logs[i] == p[i]);
            }
        }
        if logs.last().id > max_log_id(p) {
            assert(logs[logs.len() - 1].id == max_log_id(logs));
        } else {
            let j = choose|j: int| 0 <= j < p.len() && #[trigger] p[j].id == max_log_id(p);
            assert(logs[j] == p[j]);
        }
    } else {
        assert(logs[0].id == max_log_id(logs));
    }
}

/// The raise of the last synchronised id to the highest id of `logs`; none
/// when there are no logs.
pub open spec fn raise_spec(device_uuid: Seq<char>, logs: Seq<Log>) -> Seq<TableWriteView> {
    if logs.len() > 0 {
        seq![TableWriteView::RaiseLastSyncId { device_uuid: device_uuid, id: max_log_id(logs) }]
    } else {
        Seq::empty()
    }
}

/// The writes of a sync of `device_uuid`: every log in `logs` upserted, then
/// every id in `deleted` deleted, then the last synchronised id raised to the
/// highest id uploaded. The `device_uuid` inside each uploaded log is not
/// used: a device writes only its own logs.
pub open spec fn sync_writes_spec(device_uuid: Seq<char>, logs: Seq<Log>, deleted: Seq<i64>) -> Seq<
    TableWriteView,
> {
    upserts_spec(device_uuid, logs) + deletes_spec(device_uuid, deleted) + raise_spec(
        device_uuid,
        logs,
    )
}

/// Every write of a sync is about the device that sends it, whatever
/// device the uploaded logs name: a device writes only its own logs.
pub proof fn lemma_sync_writes_only_own_device(
    device_uuid: Seq<char>,
    logs: Seq<Log>,
    deleted: Seq<i64>,
)
    ensures
        forall|i: int|
            0 <= i < sync_writes_spec(device_uuid, logs, deleted).len() ==> write_device(
                #[trigger] sync_writes_spec(device_uuid, logs, deleted)[i],
            ) == device_uuid,
{
    let ws = sync_writes_spec(device_uuid, logs, deleted);
    let a = upserts_spec(device_uuid, logs);
    let b = deletes_spec(device_uuid, deleted);
    let c = raise_spec(device_uuid, logs);
    assert forall|i: int| 0 <= i < ws.len() implies write_device(#[trigger] ws[i]) == device_uuid by {
        if i < a.len() {
            assert(ws[i] == a[i]);
        } else if i < a.len() + b.len() {
            assert(ws[i] == b[i - a.len()]);
        } else {
            assert(ws[i] == c[i - a.len() - b.len()]);
        }
    }
}

/// The highest id among `logs`, which must not be empty.
pub fn highest_log_id(logs: &Vec<Log>) -> (m: i64)
    requires
        logs@.len() > 0,
    ensures
        m == max_log_id(logs@),
        forall|i: int| 0 <= i < logs@.len() ==> logs@[i].id <= m,
        exists|i: int| 0 <= i < logs@.len() && logs@[i].id == m,
{
    let mut m = logs[0].id;
    let mut i: usize = 1;
    proof {
        assert(logs@.take(1).len() == 1);
    }
    while i < logs.len()
        invariant
            1 <= i <= logs@.len(),
            m == max_log_id(logs@.take(i as int)),
            forall|j: int| 0 <= j < i ==> logs@[j].id <= m,
            exists|j: int| 0 <= j < i && logs@[j].id == m,
        decreases logs@.len() - i,
    {
        proof {
            let t = logs@.take(i + 1);
            assert(t.drop_last() =~= logs@.take(i as int));
            assert(t.last() == logs@[i as int]);
        }
        if logs[i].id > m {
            m = logs[i].id;
        }
        i = i + 1;
    }
    proof {
        assert(logs@.take(logs@.len() as int) =~= logs@);
    }
    m
}

/// The writes of a sync of `device_uuid` with `logs` and `deleted`.
pub fn sync_writes(device_uuid: &str, logs: &Vec<Log>, deleted: &Vec<i64>) -> (ws: Vec<TableWrite>)
    ensures
        write_views(ws@) == sync_writes_spec(device_uuid@, logs@, deleted@),
{
    let mut ws: Vec<TableWrite> = Vec::new();
    for i in 0..logs.len()
        invariant
            write_views(ws@) == upserts_spec(device_uuid@, logs@.take(i as int)),
    {
        let l = &logs[i];
        let ghost prev = ws@;
        ws.push(
            TableWrite::Upsert {
                device_uuid: String::from_str(device_uuid),
                id: l.id,
                app: l.app.clone(),
                timestamp: l.timestamp,
                duration: l.duration,
            },
        );
        proof {
            let want = upserts_spec(device_uuid@, logs@.take(i + 1));
            assert(write_views(prev).len() == prev.len());
            assert(prev.len() == i);
            assert(ws@ == prev.push(ws@[i as int]));
            assert(want.len() == ws@.len());
            assert forall|j: int| 0 <= j < ws@.len() implies #[trigger] write_views(ws@)[j] == want[j] by {
                if j < i {
                    assert(ws@[j] == prev[j]);
                    assert(write_views(prev)[j] == upserts_spec(device_uuid@, logs@.take(i as int))[j]);
                }
            }
            assert(write_views(ws@) =~= want);
        }
    }
    proof {
        assert(logs@.take(logs@.len() as int) =~= logs@);
    }
    let ghost ups = write_views(ws@);
    for i in 0..deleted.len()
        invariant
            ups == upserts_spec(device_uuid@, logs@),
            write_views(ws@) == ups + deletes_spec(device_uuid@, deleted@.take(i as int)),
    {
        let ghost prev = ws@;
        ws.push(TableWrite::Delete { device_uuid: String::from_str(device_uuid), id: deleted[i] });
        proof {
            let want = ups + deletes_spec(device_uuid@, deleted@.take(i + 1));
            let had = ups + deletes_spec(device_uuid@, deleted@.take(i as int));
            assert(write_views(prev).len() == prev.len());
            assert(prev.len() == had.len());
            assert(ws@ == prev.push(ws@[prev.len() as int]));
            assert(want.len() == ws@.len());
            assert forall|j: int| 0 <= j < ws@.len() implies #[trigger] write_views(ws@)[j] == want[j] by {
                if j < prev.len() {
                    assert(ws@[j] == prev[j]);
                    assert(write_views(prev)[j] == had[j]);
                }
            }
            assert(write_views(ws@) =~= want);
        }
    }
    proof {
        assert(deleted@.take(deleted@.len() as int) =~= deleted@);
    }
    if logs.len() > 0 {
        let m = highest_log_id(logs);
        ws.push(TableWrite::RaiseLastSyncId { device_uuid: String::from_str(device_uuid), id: m });
    }
    proof {
        assert(write_views(ws@) =~= sync_writes_spec(device_uuid@, logs@, deleted@));
    }
    ws
}

/// A sync request: the approved device that sends it, and the writes it
/// makes. Unknown, failing and unapproved tokens are answered as
/// `authenticate_active` answers them, with no writes.
pub fn plan_sync(lookup: DeviceLookup, logs: &Vec<Log>, deleted: &Vec<i64>) -> (r: Result<
    (Device, Vec<TableWrite>),
    HttpError,
>)
    ensures
        match lookup {
            DeviceLookup::Found(d) => if d.is_active {
                r matches Ok((dev, ws)) && dev == d && write_views(ws@) == sync_writes_spec(
                    d.uuid@,
                    logs@,
                    deleted@,
                )
            } else {
                r matches Err(e) && is_error(e, 403, "device is waiting for admin approval"@)
            },
            DeviceLookup::NotFound => r matches Err(e) && is_error(e, 401, "invalid token"@),
            DeviceLookup::Failed(m) => r matches Err(e) && is_error(e, 500, m@),
        },
{
    let device = authenticate_active(lookup)?;
    let ws = sync_writes(device.uuid.as_str(), logs, deleted);
    Ok((device, ws))
}

/// An upload of all logs: like a sync without deletions, but it must carry at
/// least one log (else 400), and the device is checked first.
pub fn plan_upload_all_logs(lookup: DeviceLookup, logs: &Vec<Log>) -> (r: Result<
    (Device, Vec<TableWrite>),
    HttpError,
>)
    ensures
        match lookup {
            DeviceLookup::Found(d) => if !d.is_active {
                r matches Err(e) && is_error(e, 403, "device is waiting for admin approval"@)
            } else if logs@.len() == 0 {
                r matches Err(e) && is_error(e, 400, "no logs provided"@)
            } else {
                r matches Ok((dev, ws)) && dev == d && write_views(ws@) == sync_writes_spec(
                    d.uuid@,
                    logs@,
                    Seq::empty(),
                )
            },
            DeviceLookup::NotFound => r matches Err(e) && is_error(e, 401, "invalid token"@),
            DeviceLookup::Failed(m) => r matches Err(e) && is_error(e, 500, m@),
        },
{
    let device = authenticate_active(lookup)?;
    if logs.len() == 0 {
        return Err(bad_request("no logs provided"));
    }
    let none: Vec<i64> = Vec::new();
    let ws = sync_writes(device.uuid.as_str(), logs, &none);
    Ok((device, ws))
}


// ---------------------------------------------------------------------------
// What the writes do
// ---------------------------------------------------------------------------

/// A stored log row: app, timestamp, duration.
pub type LogRow = (Seq<char>, i64, i64);

/// A stored device row: name, last synchronised log id, approval.
pub type DeviceRow = (Seq<char>, i64, bool);

/// The tables as far as these writes touch them: the logs, keyed by device
/// and log id, and the devices, keyed by identifier (the token hash is left
/// out: no write changes it).
pub struct Tables {
    pub logs: Map<(Seq<char>, i64), LogRow>,
    pub devices: Map<Seq<char>, DeviceRow>,
}

/// What one write does to the tables, as its SQL statement does: an upsert
/// inserts or overwrites a row, a delete removes a row if there is one, a
/// raise keeps the higher of the stored and the given id of an existing
/// device; deleting a device's logs removes all rows of that device, and
/// deleting a device removes it; the admin's updates of a device's approval,
/// of its name and last synchronised id, and of a log's fields change the row
/// when there is one. The database also refuses a log of a device
/// that does not exist, failing the whole transaction; the writes planned
/// here are for a device that was just found, and the model leaves that
/// refusal out.
pub open spec fn apply_write(t: Tables, w: TableWriteView) -> Tables {
    match w {
        TableWriteView::Upsert { device_uuid, id, app, timestamp, duration } => Tables {
            logs: t.logs.insert((device_uuid, id), (app, timestamp, duration)),
            devices: t.devices,
        },
        TableWriteView::Delete { device_uuid, id } => Tables {
            logs: t.logs.remove((device_uuid, id)),
            devices: t.devices,
        },
        TableWriteView::RaiseLastSyncId { device_uuid, id } => if t.devices.dom().contains(
            device_uuid,
        ) {
            let d = t.devices[device_uuid];
            Tables {
                logs: t.logs,
                devices: t.devices.insert(
                    device_uuid,
                    (
                        d.0,
                        if id > d.1 {
                            id
                        } else {
                            d.1
                        },
                        d.2,
                    ),
                ),
            }
        } else {
            t
        },
        TableWriteView::DeleteDeviceLogs { device_uuid } => Tables {
            logs: Map::new(
                |k: (Seq<char>, i64)| t.logs.dom().contains(k) && k.0 != device_uuid,
                |k: (Seq<char>, i64)| t.logs[k],
            ),
            devices: t.devices,
        },
        TableWriteView::DeleteDevice { device_uuid } => Tables {
            logs: t.logs,
            devices: t.devices.remove(device_uuid),
        },
        TableWriteView::SetDeviceActive { device_uuid, is_active } => if t.devices.dom().contains(
            device_uuid,
        ) {
            let d = t.devices[device_uuid];
            Tables { logs: t.logs, devices: t.devices.insert(device_uuid, (d.0, d.1, is_active)) }
        } else {
            t
        },
        TableWriteView::UpdateDevice { device_uuid, name, last_sync_id } => if t.devices.dom().contains(
            device_uuid,
        ) {
            let d = t.devices[device_uuid];
            Tables { logs: t.logs, devices: t.devices.insert(device_uuid, (name, last_sync_id, d.2)) }
        } else {
            t
        },
        TableWriteView::UpdateLog { device_uuid, id, app, timestamp, duration } => if t.logs.dom().contains(
            (device_uuid, id),
        ) {
            Tables {
                logs: t.logs.insert((device_uuid, id), (app, timestamp, duration)),
                devices: t.devices,
            }
        } else {
            t
        },
    }
}

/// Whether a write of one row finds its row: the device for a change of
/// approval, an update or a deletion of a device; the log for an update or a
/// deletion of a log. The database reports one changed row then, and none
/// otherwise.
pub open spec fn finds_row(t: Tables, w: TableWriteView) -> bool {
    match w {
        TableWriteView::Delete { device_uuid, id } => t.logs.dom().contains((device_uuid, id)),
        TableWriteView::UpdateLog { device_uuid, id, .. } => t.logs.dom().contains((device_uuid, id)),
        TableWriteView::DeleteDevice { device_uuid } => t.devices.dom().contains(device_uuid),
        TableWriteView::SetDeviceActive { device_uuid, .. } => t.devices.dom().contains(device_uuid),
        TableWriteView::UpdateDevice { device_uuid, .. } => t.devices.dom().contains(device_uuid),
        _ => true,
    }
}

/// What a sequence of writes does, applied in order.
pub open spec fn apply_writes(t: Tables, ws: Seq<TableWriteView>) -> Tables
    decreases ws.len(),
{
    if ws.len() == 0 {
        t
    } else {
        apply_write(apply_writes(t, ws.drop_last()), ws.last())
    }
}

/// The last log in `logs` with number `id`, if any.
pub open spec fn last_log_with_id(logs: Seq<Log>, id: i64) -> Option<Log>
    decreases logs.len(),
{
    if logs.len() == 0 {
        None
    } else if logs.last().id == id {
        Some(logs.last())
    } else {
        last_log_with_id(logs.drop_last(), id)
    }
}

/// The stored row of a log.
pub open spec fn row_of(l: Log) -> LogRow {
    (l.app@, l.timestamp, l.duration)
}

/// The logs after every log in `logs` was upserted under `device_uuid`: a
/// number that occurs in `logs` holds the row of its last occurrence.
pub open spec fn upserted(
    m: Map<(Seq<char>, i64), LogRow>,
    device_uuid: Seq<char>,
    logs: Seq<Log>,
) -> Map<(Seq<char>, i64), LogRow> {
    Map::new(
        |k: (Seq<char>, i64)|
            m.dom().contains(k) || (k.0 == device_uuid && last_log_with_id(logs, k.1) is Some),
        |k: (Seq<char>, i64)|
            if k.0 == device_uuid && last_log_with_id(logs, k.1) is Some {
                row_of(last_log_with_id(logs, k.1)->0)
            } else {
                m[k]
            },
    )
}

/// The logs after the logs of `device_uuid` numbered in `ids` were deleted.
pub open spec fn removed(m: Map<(Seq<char>, i64), LogRow>, device_uuid: Seq<char>, ids: Seq<i64>) -> Map<
    (Seq<char>, i64),
    LogRow,
> {
    Map::new(
        |k: (Seq<char>, i64)| m.dom().contains(k) && !(k.0 == device_uuid && ids.contains(k.1)),
        |k: (Seq<char>, i64)| m[k],
    )
}

/// The last synchronised ids after a sync of `device_uuid` with `logs`: the
/// device's id is raised to the highest uploaded id, when it exists and
/// something was uploaded.
pub open spec fn raised(s: Map<Seq<char>, DeviceRow>, device_uuid: Seq<char>, logs: Seq<Log>) -> Map<
    Seq<char>,
    DeviceRow,
> {
    if logs.len() > 0 && s.dom().contains(device_uuid) {
        let d = s[device_uuid];
        s.insert(
            device_uuid,
            (
                d.0,
                if max_log_id(logs) > d.1 {
                    max_log_id(logs)
                } else {
                    d.1
                },
                d.2,
            ),
        )
    } else {
        s
    }
}

/// The tables after a sync of `device_uuid` with `logs` and `deleted`.
pub open spec fn sync_effect(t: Tables, device_uuid: Seq<char>, logs: Seq<Log>, deleted: Seq<i64>) -> Tables {
    Tables {
        logs: removed(upserted(t.logs, device_uuid, logs), device_uuid, deleted),
        devices: raised(t.devices, device_uuid, logs),
    }
}

proof fn lemma_apply_writes_concat(t: Tables, a: Seq<TableWriteView>, b: Seq<TableWriteView>)
    ensures
        apply_writes(t, a + b) == apply_writes(apply_writes(t, a), b),
    decreases b.len(),
{
    if b.len() == 0 {
        assert(a + b =~= a);
    } else {
        lemma_apply_writes_concat(t, a, b.drop_last());
        assert((a + b).drop_last() =~= a + b.drop_last());
        assert((a + b).last() == b.last());
    }
}

proof fn lemma_upserts_effect(t: Tables, u: Seq<char>, logs: Seq<Log>)
    ensures
        apply_writes(t, upserts_spec(u, logs)) == (Tables {
            logs: upserted(t.logs, u, logs),
            devices: t.devices,
        }),
    decreases logs.len(),
{
    if logs.len() == 0 {
        assert(upserted(t.logs, u, logs) =~= t.logs);
        assert(upserts_spec(u, logs) =~= Seq::<TableWriteView>::empty());
    } else {
        let p = logs.drop_last();
        let l = logs.last();
        lemma_upserts_effect(t, u, p);
        assert(upserts_spec(u, logs).drop_last() =~= upserts_spec(u, p));
        let before = upserted(t.logs, u, p);
        let after = before.insert((u, l.id), row_of(l));
        assert(after =~= upserted(t.logs, u, logs));
    }
}

proof fn lemma_deletes_effect(t: Tables, u: Seq<char>, ids: Seq<i64>)
    ensures
        apply_writes(t, deletes_spec(u, ids)) == (Tables {
            logs: removed(t.logs, u, ids),
            devices: t.devices,
        }),
    decreases ids.len(),
{
    if ids.len() == 0 {
        assert(removed(t.logs, u, ids) =~= t.logs);
        assert(deletes_spec(u, ids) =~= Seq::<TableWriteView>::empty());
    } else {
        let p = ids.drop_last();
        lemma_deletes_effect(t, u, p);
        assert(deletes_spec(u, ids).drop_last() =~= deletes_spec(u, p));
        let before = removed(t.logs, u, p);
        let after = before.remove((u, ids.last()));
        assert forall|k: (Seq<char>, i64)| #[trigger] ids.contains(k.1) implies p.contains(k.1)
            || k.1 == ids.last() by {
            let j = choose|j: int| 0 <= j < ids.len() && ids[j] == k.1;
            if j < ids.len() - 1 {
                assert(p[j] == ids[j]);
            }
        }
        assert forall|x: i64| #[trigger] p.contains(x) implies ids.contains(x) by {
            let j = choose|j: int| 0 <= j < p.len() && p[j] == x;
            assert(ids[j] == p[j]);
        }
        assert(ids.contains(ids.last())) by {
            assert(ids[ids.len() - 1] == ids.last());
        }
        assert(after =~= removed(t.logs, u, ids));
    }
}

/// What a sync leaves in the tables: every uploaded log of the device holds
/// the fields of its last occurrence in the request, every listed deletion
/// of the device is gone (also when the same request uploaded it), and the
/// device's last synchronised id is the higher of the old one and the
/// highest uploaded id. Nothing else changes.
pub proof fn lemma_sync_effect(t: Tables, device_uuid: Seq<char>, logs: Seq<Log>, deleted: Seq<i64>)
    ensures
        apply_writes(t, sync_writes_spec(device_uuid, logs, deleted)) == sync_effect(
            t,
            device_uuid,
            logs,
            deleted,
        ),
{
    let u = device_uuid;
    let ups = upserts_spec(u, logs);
    let dels = deletes_spec(u, deleted);
    let rai = raise_spec(u, logs);
    lemma_apply_writes_concat(t, ups + dels, rai);
    lemma_apply_writes_concat(t, ups, dels);
    lemma_upserts_effect(t, u, logs);
    let t1 = apply_writes(t, ups);
    lemma_deletes_effect(t1, u, deleted);
    let t2 = apply_writes(t1, dels);
    if logs.len() > 0 {
        assert(rai.drop_last() =~= Seq::<TableWriteView>::empty());
        assert(apply_writes(t2, rai.drop_last()) == t2);
        assert(apply_writes(t2, rai) == apply_write(t2, rai.last()));
    } else {
        assert(rai =~= Seq::<TableWriteView>::empty());
    }
    assert(apply_writes(t2, rai).logs =~= sync_effect(t, u, logs, deleted).logs);
    assert(apply_writes(t2, rai).devices =~= sync_effect(t, u, logs, deleted).devices);
}

/// A sync request carried out twice leaves the tables as carrying it out
/// once: a retried sync, or one whose answer was lost, does no harm.
pub proof fn lemma_sync_replay_is_idempotent(
    t: Tables,
    device_uuid: Seq<char>,
    logs: Seq<Log>,
    deleted: Seq<i64>,
)
    ensures
        ({
            let ws = sync_writes_spec(device_uuid, logs, deleted);
            apply_writes(apply_writes(t, ws), ws) == apply_writes(t, ws)
        }),
{
    let ws = sync_writes_spec(device_uuid, logs, deleted);
    let once = apply_writes(t, ws);
    lemma_sync_effect(t, device_uuid, logs, deleted);
    lemma_sync_effect(once, device_uuid, logs, deleted);
    let twice = apply_writes(once, ws);
    assert(twice.logs =~= once.logs);
    assert(twice.devices =~= once.devices);
}

/// A sync of one device leaves the logs and the last synchronised id of
/// every other device as they were.
pub proof fn lemma_sync_leaves_other_devices(
    t: Tables,
    device_uuid: Seq<char>,
    logs: Seq<Log>,
    deleted: Seq<i64>,
    other: Seq<char>,
    id: i64,
)
    requires
        other != device_uuid,
    ensures
        ({
            let after = apply_writes(t, sync_writes_spec(device_uuid, logs, deleted));
            &&& after.logs.dom().contains((other, id)) == t.logs.dom().contains((other, id))
            &&& t.logs.dom().contains((other, id)) ==> after.logs[(other, id)] == t.logs[(
                other,
                id,
            )]
            &&& after.devices.dom().contains(other) == t.devices.dom().contains(other)
            &&& t.devices.dom().contains(other) ==> after.devices[other] == t.devices[other]
        }),
{
    lemma_sync_effect(t, device_uuid, logs, deleted);
}

/// Whatever writes are carried out, short of the admin deleting the device
/// or setting its last synchronised id by hand, that id never goes down:
/// out-of-order and retried requests cannot move it back.
pub proof fn lemma_last_sync_id_never_decreases(t: Tables, ws: Seq<TableWriteView>, device_uuid: Seq<char>)
    requires
        forall|i: int|
            0 <= i < ws.len() ==> !(#[trigger] ws[i] matches TableWriteView::DeleteDevice {
                device_uuid: u,
            } && u == device_uuid),
        forall|i: int|
            0 <= i < ws.len() ==> !(#[trigger] ws[i] matches TableWriteView::UpdateDevice {
                device_uuid: u,
                ..
            } && u == device_uuid),
    ensures
        apply_writes(t, ws).devices.dom().contains(device_uuid) == t.devices.dom().contains(
            device_uuid,
        ),
        t.devices.dom().contains(device_uuid) ==> apply_writes(t, ws).devices[device_uuid].1
            >= t.devices[device_uuid].1,
    decreases ws.len(),
{
    if ws.len() > 0 {
        let p = ws.drop_last();
        assert forall|i: int| 0 <= i < p.len() implies !(#[trigger] p[i] matches TableWriteView::DeleteDevice {
            device_uuid: u,
        } && u == device_uuid) by {
            assert(p[i] == ws[i]);
        }
        assert forall|i: int| 0 <= i < p.len() implies !(#[trigger] p[i] matches TableWriteView::UpdateDevice {
            device_uuid: u,
            ..
        } && u == device_uuid) by {
            assert(p[i] == ws[i]);
        }
        lemma_last_sync_id_never_decreases(t, p, device_uuid);
        assert(ws.last() == ws[ws.len() - 1]);
    }
}


/// After a sync, the device's log with a number that the request uploaded
/// and did not delete holds the fields of its last upload in the request:
/// an edited log (a longer duration, say) is overwritten, not duplicated.
/// A number that the request deleted is gone.
pub proof fn lemma_sync_read_back(
    t: Tables,
    device_uuid: Seq<char>,
    logs: Seq<Log>,
    deleted: Seq<i64>,
    id: i64,
)
    ensures
        ({
            let after = apply_writes(t, sync_writes_spec(device_uuid, logs, deleted));
            &&& deleted.contains(id) ==> !after.logs.dom().contains((device_uuid, id))
            &&& !deleted.contains(id) ==> match last_log_with_id(logs, id) {
                Some(l) => after.logs.dom().contains((device_uuid, id)) && after.logs[(
                    device_uuid,
                    id,
                )] == row_of(l),
                None => after.logs.dom().contains((device_uuid, id)) == t.logs.dom().contains(
                    (device_uuid, id),
                ),
            }
        }),
{
    lemma_sync_effect(t, device_uuid, logs, deleted);
}


/// The writes that delete a device: first all its logs, then the device.
pub open spec fn delete_device_writes_spec(device_uuid: Seq<char>) -> Seq<TableWriteView> {
    seq![
        TableWriteView::DeleteDeviceLogs { device_uuid: device_uuid },
        TableWriteView::DeleteDevice { device_uuid: device_uuid },
    ]
}

/// The writes that delete the device `device_uuid` with all its logs.
pub fn delete_device_writes(device_uuid: &str) -> (ws: Vec<TableWrite>)
    ensures
        write_views(ws@) == delete_device_writes_spec(device_uuid@),
{
    let mut ws: Vec<TableWrite> = Vec::new();
    ws.push(TableWrite::DeleteDeviceLogs { device_uuid: String::from_str(device_uuid) });
    ws.push(TableWrite::DeleteDevice { device_uuid: String::from_str(device_uuid) });
    proof {
        assert(write_views(ws@) =~= delete_device_writes_spec(device_uuid@));
    }
    ws
}

/// Deleting a device removes it and every one of its logs in the same
/// operation, and leaves the other devices and their logs as they were.
pub proof fn lemma_delete_device_removes_its_logs(t: Tables, device_uuid: Seq<char>)
    ensures
        ({
            let after = apply_writes(t, delete_device_writes_spec(device_uuid));
            &&& !after.devices.dom().contains(device_uuid)
            &&& forall|id: i64| !after.logs.dom().contains((device_uuid, id))
            &&& forall|k: (Seq<char>, i64)|
                k.0 != device_uuid ==> (after.logs.dom().contains(k) == t.logs.dom().contains(k)
                    && (t.logs.dom().contains(k) ==> after.logs[k] == t.logs[k]))
            &&& forall|v: Seq<char>|
                v != device_uuid ==> (after.devices.dom().contains(v)
                    == t.devices.dom().contains(v) && (t.devices.dom().contains(v)
                    ==> after.devices[v] == t.devices[v]))
        }),
{
    let ws = delete_device_writes_spec(device_uuid);
    assert(ws.drop_last().drop_last() =~= Seq::<TableWriteView>::empty());
    assert(apply_writes(t, ws.drop_last().drop_last()) == t);
    assert(ws.drop_last().last() == ws[0]);
    assert(apply_writes(t, ws.drop_last()) == apply_write(t, ws[0]));
}

// ---------------------------------------------------------------------------
// The admin's writes
// ---------------------------------------------------------------------------

/// The write that approves the device `device_uuid` or withdraws its approval.
pub fn set_device_active_write(device_uuid: &str, is_active: bool) -> (w: TableWrite)
    ensures
        w@ == (TableWriteView::SetDeviceActive { device_uuid: device_uuid@, is_active }),
{
    TableWrite::SetDeviceActive { device_uuid: String::from_str(device_uuid), is_active }
}

/// The write that saves the device form for `device_uuid`.
pub fn update_device_write(device_uuid: &str, update: DeviceUpdate) -> (w: TableWrite)
    ensures
        w@ == (TableWriteView::UpdateDevice {
            device_uuid: device_uuid@,
            name: update.name@,
            last_sync_id: update.last_sync_id,
        }),
{
    TableWrite::UpdateDevice {
        device_uuid: String::from_str(device_uuid),
        name: update.name,
        last_sync_id: update.last_sync_id,
    }
}

/// The write that saves the log form for the log of `device_uuid` with
/// number `id`.
pub fn update_log_write(device_uuid: &str, id: i64, update: LogUpdate) -> (w: TableWrite)
    ensures
        w@ == (TableWriteView::UpdateLog {
            device_uuid: device_uuid@,
            id,
            app: update.app@,
            timestamp: update.timestamp,
            duration: update.duration,
        }),
{
    TableWrite::UpdateLog {
        device_uuid: String::from_str(device_uuid),
        id,
        app: update.app,
        timestamp: update.timestamp,
        duration: update.duration,
    }
}

/// The write that deletes the log of `device_uuid` with number `id`.
pub fn delete_log_write(device_uuid: &str, id: i64) -> (w: TableWrite)
    ensures
        w@ == (TableWriteView::Delete { device_uuid: device_uuid@, id }),
{
    TableWrite::Delete { device_uuid: String::from_str(device_uuid), id }
}

/// Approving a device, or withdrawing its approval, changes only that flag
/// of that device when the device exists, and nothing when it does not
/// (the admin is then answered 404).
pub proof fn lemma_set_device_active_effect(t: Tables, device_uuid: Seq<char>, is_active: bool)
    ensures
        ({
            let w = TableWriteView::SetDeviceActive { device_uuid, is_active };
            let after = apply_write(t, w);
            &&& finds_row(t, w) == t.devices.dom().contains(device_uuid)
            &&& after.logs == t.logs
            &&& after.devices.dom() == t.devices.dom()
            &&& t.devices.dom().contains(device_uuid) ==> after.devices[device_uuid] == (
                t.devices[device_uuid].0,
                t.devices[device_uuid].1,
                is_active,
            )
            &&& forall|v: Seq<char>|
                v != device_uuid && t.devices.dom().contains(v) ==> after.devices[v] == t.devices[v]
        }),
{
    let w = TableWriteView::SetDeviceActive { device_uuid, is_active };
    if t.devices.dom().contains(device_uuid) {
        assert(apply_write(t, w).devices.dom() =~= t.devices.dom());
    }
}

/// Saving the device form sets the device's name and last synchronised id
/// and keeps its approval, when the device exists; otherwise nothing changes.
pub proof fn lemma_update_device_effect(
    t: Tables,
    device_uuid: Seq<char>,
    name: Seq<char>,
    last_sync_id: i64,
)
    ensures
        ({
            let w = TableWriteView::UpdateDevice { device_uuid, name, last_sync_id };
            let after = apply_write(t, w);
            &&& finds_row(t, w) == t.devices.dom().contains(device_uuid)
            &&& after.logs == t.logs
            &&& after.devices.dom() == t.devices.dom()
            &&& t.devices.dom().contains(device_uuid) ==> after.devices[device_uuid] == (
                name,
                last_sync_id,
                t.devices[device_uuid].2,
            )
            &&& forall|v: Seq<char>|
                v != device_uuid && t.devices.dom().contains(v) ==> after.devices[v] == t.devices[v]
        }),
{
    let w = TableWriteView::UpdateDevice { device_uuid, name, last_sync_id };
    if t.devices.dom().contains(device_uuid) {
        assert(apply_write(t, w).devices.dom() =~= t.devices.dom());
    }
}

/// Saving the log form sets that log's fields when the log exists; otherwise
/// nothing changes. Deleting a log removes it; it found a row when the log
/// existed.
pub proof fn lemma_admin_log_writes_effect(
    t: Tables,
    device_uuid: Seq<char>,
    id: i64,
    app: Seq<char>,
    timestamp: i64,
    duration: i64,
)
    ensures
        ({
            let w = TableWriteView::UpdateLog { device_uuid, id, app, timestamp, duration };
            let after = apply_write(t, w);
            &&& finds_row(t, w) == t.logs.dom().contains((device_uuid, id))
            &&& after.devices == t.devices
            &&& after.logs.dom() == t.logs.dom()
            &&& t.logs.dom().contains((device_uuid, id)) ==> after.logs[(device_uuid, id)] == (
                app,
                timestamp,
                duration,
            )
            &&& forall|k: (Seq<char>, i64)|
                k != (device_uuid, id) && t.logs.dom().contains(k) ==> after.logs[k] == t.logs[k]
        }),
        ({
            let w = TableWriteView::Delete { device_uuid, id };
            let after = apply_write(t, w);
            &&& finds_row(t, w) == t.logs.dom().contains((device_uuid, id))
            &&& !after.logs.dom().contains((device_uuid, id))
            &&& after.devices == t.devices
            &&& forall|k: (Seq<char>, i64)|
                k != (device_uuid, id) ==> (after.logs.dom().contains(k) == t.logs.dom().contains(k)
                    && (t.logs.dom().contains(k) ==> after.logs[k] == t.logs[k]))
        }),
{
    let w = TableWriteView::UpdateLog { device_uuid, id, app, timestamp, duration };
    if t.logs.dom().contains((device_uuid, id)) {
        assert(apply_write(t, w).logs.dom() =~= t.logs.dom());
    }
}

} // verus!
