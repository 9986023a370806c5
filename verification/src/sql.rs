//! The SQL text of the service: the schema, and the statement that carries
//! out each table write.

use vstd::prelude::*;
use vstd::string::*;
use crate::model::Device;
use crate::sync::{
    apply_write, apply_writes, lemma_sync_effect, lemma_sync_read_back, last_log_with_id, row_of, sync_writes_spec, LogRow, TableWrite, TableWriteView, Tables,
};
use crate::model::Log;

verus! {

/// The `devices` table.
pub const CREATE_DEVICES_TABLE: &'static str = "CREATE TABLE IF NOT EXISTS devices (
            uuid TEXT PRIMARY KEY NOT NULL,
            hash_token TEXT NOT NULL,
            name TEXT NOT NULL,
            last_sync_id INTEGER NOT NULL DEFAULT 0,
            is_active INTEGER NOT NULL DEFAULT 0
        )";

/// The column names of the `devices` table.
pub const SELECT_DEVICE_COLUMNS: &'static str = "SELECT name FROM pragma_table_info('devices')";

/// Adds the approval column to a `devices` table that lacks it.
pub const ADD_IS_ACTIVE_COLUMN: &'static str = "ALTER TABLE devices ADD COLUMN is_active INTEGER NOT NULL DEFAULT 0";

/// The `logs` table, keyed by device and log id.
pub const CREATE_LOGS_TABLE: &'static str = "
        CREATE TABLE IF NOT EXISTS logs (
            id INTEGER NOT NULL,
            device_uuid TEXT NOT NULL,
            app TEXT NOT NULL,
            timestamp INTEGER NOT NULL,
            duration INTEGER NOT NULL DEFAULT 0,
            PRIMARY KEY (device_uuid, id),
            FOREIGN KEY (device_uuid)
                REFERENCES devices(uuid)
                ON DELETE CASCADE
        )
        ";

/// The `CREATE` statement of the `logs` table, if there is one.
pub const SELECT_LOGS_DDL: &'static str = "SELECT sql FROM sqlite_master WHERE type = 'table' AND name = 'logs'";

/// The steps that rebuild an old `logs` table with the composite key: drop
/// the logs of no device, then, in one transaction, copy the rest into a new
/// table and put it in the old one's place. `is_migration_of` states what
/// the new table holds.
pub const MIGRATE_DROP_ORPHANS: &'static str = "
        DELETE FROM logs
        WHERE device_uuid IS NULL OR device_uuid = ''
        ";

pub const MIGRATE_CREATE_NEW: &'static str = "
        CREATE TABLE logs_new (
            id INTEGER NOT NULL,
            device_uuid TEXT NOT NULL,
            app TEXT NOT NULL,
            timestamp INTEGER NOT NULL,
            duration INTEGER NOT NULL DEFAULT 0,
            PRIMARY KEY (device_uuid, id),
            FOREIGN KEY (device_uuid)
                REFERENCES devices(uuid)
                ON DELETE CASCADE
        )
        ";

pub const MIGRATE_COPY: &'static str = "
        INSERT OR IGNORE INTO logs_new (id, device_uuid, app, timestamp, duration)
        SELECT id, device_uuid, app, timestamp, duration FROM logs
        WHERE device_uuid IS NOT NULL AND device_uuid != ''
        ";

pub const MIGRATE_DROP_OLD: &'static str = "DROP TABLE logs";

pub const MIGRATE_RENAME: &'static str = "ALTER TABLE logs_new RENAME TO logs";

/// Stores a new device.
pub const INSERT_DEVICE: &'static str = "insert into devices (uuid, hash_token, name, is_active) values (?, ?, ?, ?)";

/// The device whose token hash is given.
pub const SELECT_DEVICE_BY_HASH: &'static str = "SELECT * FROM devices WHERE hash_token = ?";

pub const UPSERT_LOG: &'static str = "INSERT INTO logs
             (id, device_uuid, app, timestamp, duration)
             VALUES (?, ?, ?, ?, ?)
             ON CONFLICT(device_uuid, id) DO UPDATE SET
                 app = excluded.app,
                 timestamp = excluded.timestamp,
                 duration = excluded.duration";

pub const DELETE_LOG: &'static str = "DELETE FROM logs
             WHERE id = ? AND device_uuid = ?";

pub const RAISE_LAST_SYNC_ID: &'static str = "UPDATE devices SET last_sync_id = MAX(last_sync_id, ?) WHERE uuid = ?";

pub const DELETE_DEVICE_LOGS: &'static str = "DELETE FROM logs WHERE device_uuid = ?";

pub const DELETE_DEVICE: &'static str = "DELETE FROM devices WHERE uuid = ?";

/// The approved devices, as other devices see them.
pub const LIST_ACTIVE_DEVICES: &'static str = "select name, uuid, last_sync_id, is_active from devices where is_active = 1";

/// Whether an approved device with the given identifier exists.
pub const ACTIVE_DEVICE_EXISTS: &'static str = "SELECT 1 FROM devices WHERE uuid = ? AND is_active = 1 LIMIT 1";

/// All logs of a device.
pub const LOGS_OF_DEVICE: &'static str = "SELECT * FROM logs WHERE device_uuid = ?";

/// The logs of an approved device after a given log id: the rows that
/// `new_logs_rows` gives.
pub const NEW_LOGS_OF_ACTIVE_DEVICE: &'static str = "SELECT logs.* FROM logs
         JOIN devices ON devices.uuid = logs.device_uuid
         WHERE logs.device_uuid = ? AND logs.id > ? AND devices.is_active = 1";

/// Every device, waiting ones first, then by name.
pub const LIST_DEVICES_FOR_ADMIN: &'static str = "SELECT uuid, name, last_sync_id, is_active
         FROM devices ORDER BY is_active ASC, name ASC";

/// One device, as the admin sees it.
pub const SELECT_PUB_DEVICE: &'static str = "SELECT uuid, name, last_sync_id, is_active FROM devices WHERE uuid = ?";

/// Approves or withdraws the approval of a device.
pub const SET_DEVICE_ACTIVE: &'static str = "UPDATE devices SET is_active = ? WHERE uuid = ?";

/// Renames a device and sets its last synchronised log id.
pub const UPDATE_DEVICE: &'static str = "UPDATE devices SET name = ?, last_sync_id = ? WHERE uuid = ?";

/// The newest logs of one device, at most a given number.
pub const LIST_LOGS_OF_DEVICE_FOR_ADMIN: &'static str = "SELECT id, device_uuid, app, timestamp, duration FROM logs WHERE device_uuid = ? ORDER BY timestamp DESC LIMIT ?";

/// The newest logs, at most a given number.
pub const LIST_LOGS_FOR_ADMIN: &'static str = "SELECT id, device_uuid, app, timestamp, duration FROM logs ORDER BY timestamp DESC LIMIT ?";

/// One log.
pub const SELECT_LOG: &'static str = "SELECT id, device_uuid, app, timestamp, duration FROM logs WHERE device_uuid = ? AND id = ?";

/// Sets the fields of one log.
pub const UPDATE_LOG: &'static str = "UPDATE logs SET app = ?, timestamp = ?, duration = ? WHERE device_uuid = ? AND id = ?";

/// A value bound to a statement's parameter.
#[derive(Debug, PartialEq, Eq)]
pub enum SqlValue {
    Text(String),
    Integer(i64),
    Boolean(bool),
}

/// A value bound to a statement's parameter, with text as characters.
pub enum SqlValueView {
    Text(Seq<char>),
    Integer(i64),
    Boolean(bool),
}

impl View for SqlValue {
    type V = SqlValueView;

    open spec fn view(&self) -> SqlValueView {
        match self {
            SqlValue::Text(s) => SqlValueView::Text(s@),
            SqlValue::Integer(i) => SqlValueView::Integer(*i),
            SqlValue::Boolean(b) => SqlValueView::Boolean(*b),
        }
    }
}

/// A statement and the values of its parameters, in order.
pub struct Statement {
    pub sql: &'static str,
    pub params: Vec<SqlValue>,
}

/// The views of a statement's parameter values.
pub open spec fn param_views(ps: Seq<SqlValue>) -> Seq<SqlValueView> {
    Seq::new(ps.len(), |i: int| ps[i]@)
}

/// The statement that carries out a write, and its parameters.
pub open spec fn write_statement_spec(w: TableWriteView) -> (Seq<char>, Seq<SqlValueView>) {
    match w {
        TableWriteView::Upsert { device_uuid, id, app, timestamp, duration } => (
            UPSERT_LOG@,
            seq![
                SqlValueView::Integer(id),
                SqlValueView::Text(device_uuid),
                SqlValueView::Text(app),
                SqlValueView::Integer(timestamp),
                SqlValueView::Integer(duration),
            ],
        ),
        TableWriteView::Delete { device_uuid, id } => (
            DELETE_LOG@,
            seq![SqlValueView::Integer(id), SqlValueView::Text(device_uuid)],
        ),
        TableWriteView::RaiseLastSyncId { device_uuid, id } => (
            RAISE_LAST_SYNC_ID@,
            seq![SqlValueView::Integer(id), SqlValueView::Text(device_uuid)],
        ),
        TableWriteView::DeleteDeviceLogs { device_uuid } => (
            DELETE_DEVICE_LOGS@,
            seq![SqlValueView::Text(device_uuid)],
        ),
        TableWriteView::DeleteDevice { device_uuid } => (
            DELETE_DEVICE@,
            seq![SqlValueView::Text(device_uuid)],
        ),
        TableWriteView::SetDeviceActive { device_uuid, is_active } => (
            SET_DEVICE_ACTIVE@,
            seq![SqlValueView::Boolean(is_active), SqlValueView::Text(device_uuid)],
        ),
        TableWriteView::UpdateDevice { device_uuid, name, last_sync_id } => (
            UPDATE_DEVICE@,
            seq![
                SqlValueView::Text(name),
                SqlValueView::Integer(last_sync_id),
                SqlValueView::Text(device_uuid),
            ],
        ),
        TableWriteView::UpdateLog { device_uuid, id, app, timestamp, duration } => (
            UPDATE_LOG@,
            seq![
                SqlValueView::Text(app),
                SqlValueView::Integer(timestamp),
                SqlValueView::Integer(duration),
                SqlValueView::Text(device_uuid),
                SqlValueView::Integer(id),
            ],
        ),
    }
}

/// The statement that carries out `w`.
pub fn write_statement(w: &TableWrite) -> (s: Statement)
    ensures
        (s.sql@, param_views(s.params@)) == write_statement_spec(w@),
{
    let mut params: Vec<SqlValue> = Vec::new();
    let sql = match w {
        TableWrite::Upsert { device_uuid, id, app, timestamp, duration } => {
            params.push(SqlValue::Integer(*id));
            params.push(SqlValue::Text(device_uuid.clone()));
            params.push(SqlValue::Text(app.clone()));
            params.push(SqlValue::Integer(*timestamp));
            params.push(SqlValue::Integer(*duration));
            UPSERT_LOG
        },
        TableWrite::Delete { device_uuid, id } => {
            params.push(SqlValue::Integer(*id));
            params.push(SqlValue::Text(device_uuid.clone()));
            DELETE_LOG
        },
        TableWrite::RaiseLastSyncId { device_uuid, id } => {
            params.push(SqlValue::Integer(*id));
            params.push(SqlValue::Text(device_uuid.clone()));
            RAISE_LAST_SYNC_ID
        },
        TableWrite::DeleteDeviceLogs { device_uuid } => {
            params.push(SqlValue::Text(device_uuid.clone()));
            DELETE_DEVICE_LOGS
        },
        TableWrite::DeleteDevice { device_uuid } => {
            params.push(SqlValue::Text(device_uuid.clone()));
            DELETE_DEVICE
        },
        TableWrite::SetDeviceActive { device_uuid, is_active } => {
            params.push(SqlValue::Boolean(*is_active));
            params.push(SqlValue::Text(device_uuid.clone()));
            SET_DEVICE_ACTIVE
        },
        TableWrite::UpdateDevice { device_uuid, name, last_sync_id } => {
            params.push(SqlValue::Text(name.clone()));
            params.push(SqlValue::Integer(*last_sync_id));
            params.push(SqlValue::Text(device_uuid.clone()));
            UPDATE_DEVICE
        },
        TableWrite::UpdateLog { device_uuid, id, app, timestamp, duration } => {
            params.push(SqlValue::Text(app.clone()));
            params.push(SqlValue::Integer(*timestamp));
            params.push(SqlValue::Integer(*duration));
            params.push(SqlValue::Text(device_uuid.clone()));
            params.push(SqlValue::Integer(*id));
            UPDATE_LOG
        },
    };
    let s = Statement { sql, params };
    proof {
        assert(param_views(s.params@) =~= write_statement_spec(w@).1);
    }
    s
}

/// The statement that stores a new device: its identifier, token hash, name
/// and approval.
pub fn insert_device_statement(d: &Device) -> (s: Statement)
    ensures
        s.sql@ == INSERT_DEVICE@,
        param_views(s.params@) == seq![
            SqlValueView::Text(d.uuid@),
            SqlValueView::Text(d.hash_token@),
            SqlValueView::Text(d.name@),
            SqlValueView::Boolean(d.is_active),
        ],
{
    let mut params: Vec<SqlValue> = Vec::new();
    params.push(SqlValue::Text(d.uuid.clone()));
    params.push(SqlValue::Text(d.hash_token.clone()));
    params.push(SqlValue::Text(d.name.clone()));
    params.push(SqlValue::Boolean(d.is_active));
    let s = Statement { sql: INSERT_DEVICE, params };
    proof {
        assert(param_views(s.params@) =~= seq![
            SqlValueView::Text(d.uuid@),
            SqlValueView::Text(d.hash_token@),
            SqlValueView::Text(d.name@),
            SqlValueView::Boolean(d.is_active),
        ]);
    }
    s
}


// ---------------------------------------------------------------------------
// What the reads and the migration give
// ---------------------------------------------------------------------------

/// The rows that the read of a device's new logs returns, by key: the logs of
/// `device_uuid` numbered above `after`, while the device is stored and
/// approved; none otherwise. The statement orders nothing, so the order in
/// which the rows come is left open.
pub open spec fn new_logs_rows(t: Tables, device_uuid: Seq<char>, after: i64) -> Map<
    (Seq<char>, i64),
    LogRow,
> {
    Map::new(
        |k: (Seq<char>, i64)|
            t.logs.dom().contains(k) && k.0 == device_uuid && k.1 > after && t.devices.dom().contains(
                device_uuid,
            ) && t.devices[device_uuid].2,
        |k: (Seq<char>, i64)| t.logs[k],
    )
}

/// The read of the logs of `device_uuid` numbered above `after`, while the
/// device is approved.
pub fn new_logs_statement(device_uuid: &str, after: i64) -> (s: Statement)
    ensures
        s.sql@ == NEW_LOGS_OF_ACTIVE_DEVICE@,
        param_views(s.params@) == seq![SqlValueView::Text(device_uuid@), SqlValueView::Integer(after)],
{
    let mut params: Vec<SqlValue> = Vec::new();
    params.push(SqlValue::Text(device_uuid.to_string()));
    params.push(SqlValue::Integer(after));
    let s = Statement { sql: NEW_LOGS_OF_ACTIVE_DEVICE, params };
    proof {
        assert(param_views(s.params@) =~= seq![
            SqlValueView::Text(device_uuid@),
            SqlValueView::Integer(after),
        ]);
    }
    s
}

/// What an approved device syncs, the other devices read: after a sync of a
/// stored, approved device, the read of its logs above `after` gives every
/// uploaded number above `after` that the request did not also delete, with
/// the fields of its last upload; it gives no number the request deleted,
/// and none at or below `after`.
pub proof fn lemma_synced_logs_are_read_back(
    t: Tables,
    device_uuid: Seq<char>,
    logs: Seq<Log>,
    deleted: Seq<i64>,
    after: i64,
    id: i64,
)
    requires
        t.devices.dom().contains(device_uuid),
        t.devices[device_uuid].2,
    ensures
        ({
            let rows = new_logs_rows(
                apply_writes(t, sync_writes_spec(device_uuid, logs, deleted)),
                device_uuid,
                after,
            );
            &&& deleted.contains(id) ==> !rows.dom().contains((device_uuid, id))
            &&& id <= after ==> !rows.dom().contains((device_uuid, id))
            &&& !deleted.contains(id) && id > after && last_log_with_id(logs, id) is Some ==> {
                &&& rows.dom().contains((device_uuid, id))
                &&& rows[(device_uuid, id)] == row_of(last_log_with_id(logs, id)->0)
            }
        }),
{
    lemma_sync_effect(t, device_uuid, logs, deleted);
    lemma_sync_read_back(t, device_uuid, logs, deleted, id);
    let s = apply_writes(t, sync_writes_spec(device_uuid, logs, deleted));
    assert(s.devices.dom().contains(device_uuid) && s.devices[device_uuid].2);
}

/// A row of a `logs` table of the older schema, in which a log need not
/// name a device.
pub struct OldLogRow {
    pub id: i64,
    pub device_uuid: Option<Seq<char>>,
    pub row: LogRow,
}

/// Whether the migration keeps a row: it names a device, not by an empty text.
pub open spec fn names_device(r: OldLogRow) -> bool {
    r.device_uuid is Some && r.device_uuid->0.len() > 0
}

/// The key of a row in the migrated table.
pub open spec fn migrated_key(r: OldLogRow) -> (Seq<char>, i64) {
    (r.device_uuid->0, r.id)
}

/// Whether `new` is what the migration makes of the older table `old`: a
/// key is in `new` when a row of `old` that names a device has it, and its
/// row is that of one such row. The copy inserts one row per key and
/// ignores the others; which of several rows with one key stays depends on
/// the order in which SQLite reads the old table, which the statement does
/// not fix, so that is left open here.
pub open spec fn is_migration_of(old: Seq<OldLogRow>, new: Map<(Seq<char>, i64), LogRow>) -> bool {
    &&& forall|k: (Seq<char>, i64)|
        #[trigger] new.dom().contains(k) <==> exists|i: int|
            0 <= i < old.len() && names_device(old[i]) && #[trigger] migrated_key(old[i]) == k
    &&& forall|k: (Seq<char>, i64)|
        #[trigger] new.dom().contains(k) ==> exists|i: int|
            0 <= i < old.len() && names_device(old[i]) && migrated_key(old[i]) == k && #[trigger] old[i].row
                == new[k]
}

/// When no two rows of the older table that name a device share a device
/// and log id, the migration keeps each of them, unchanged.
pub proof fn lemma_migration_keeps_distinct_rows(
    old: Seq<OldLogRow>,
    new: Map<(Seq<char>, i64), LogRow>,
    i: int,
)
    requires
        is_migration_of(old, new),
        forall|a: int, b: int|
            0 <= a < old.len() && 0 <= b < old.len() && a != b && names_device(old[a]) && names_device(
                old[b],
            ) ==> migrated_key(old[a]) != migrated_key(old[b]),
        0 <= i < old.len(),
    ensures
        names_device(old[i]) ==> new.dom().contains(migrated_key(old[i])) && new[migrated_key(old[i])]
            == old[i].row,
{
    if names_device(old[i]) {
        let k = migrated_key(old[i]);
        assert(new.dom().contains(k));
        let j = choose|j: int|
            0 <= j < old.len() && names_device(old[j]) && migrated_key(old[j]) == k && #[trigger] old[j].row
                == new[k];
        assert(j == i);
    }
}


// ---------------------------------------------------------------------------
// Reading a write back from its statement
// ---------------------------------------------------------------------------

/// Parameter `i`, when it is a number.
pub open spec fn int_param(ps: Seq<SqlValueView>, i: int) -> Option<i64> {
    match ps[i] {
        SqlValueView::Integer(v) => Some(v),
        _ => None,
    }
}

/// Parameter `i`, when it is a text.
pub open spec fn text_param(ps: Seq<SqlValueView>, i: int) -> Option<Seq<char>> {
    match ps[i] {
        SqlValueView::Text(v) => Some(v),
        _ => None,
    }
}

/// Parameter `i`, when it is a flag.
pub open spec fn bool_param(ps: Seq<SqlValueView>, i: int) -> Option<bool> {
    match ps[i] {
        SqlValueView::Boolean(v) => Some(v),
        _ => None,
    }
}

/// The write that a statement carries out, read from its SQL text and its
/// parameters: each `?` of the text takes the parameter at its place, and
/// goes to the column or the condition that it stands at in the text. For
/// example `UPSERT_LOG` lists `(id, device_uuid, app, timestamp, duration)`
/// with `VALUES (?, ?, ?, ?, ?)`, so its third parameter is the log's app
/// and its fourth the log's timestamp. `None` when the text is none of the
/// write statements, or a parameter is missing or of another kind.
pub open spec fn statement_write(sql: Seq<char>, ps: Seq<SqlValueView>) -> Option<TableWriteView> {
    if sql == UPSERT_LOG@ && ps.len() == 5 {
        // (id, device_uuid, app, timestamp, duration) VALUES (?, ?, ?, ?, ?)
        match (int_param(ps, 0), text_param(ps, 1), text_param(ps, 2), int_param(ps, 3), int_param(ps, 4)) {
            (Some(id), Some(device_uuid), Some(app), Some(timestamp), Some(duration)) => Some(
                TableWriteView::Upsert { device_uuid, id, app, timestamp, duration },
            ),
            _ => None,
        }
    } else if sql == DELETE_LOG@ && ps.len() == 2 {
        // WHERE id = ? AND device_uuid = ?
        match (int_param(ps, 0), text_param(ps, 1)) {
            (Some(id), Some(device_uuid)) => Some(TableWriteView::Delete { device_uuid, id }),
            _ => None,
        }
    } else if sql == RAISE_LAST_SYNC_ID@ && ps.len() == 2 {
        // SET last_sync_id = MAX(last_sync_id, ?) WHERE uuid = ?
        match (int_param(ps, 0), text_param(ps, 1)) {
            (Some(id), Some(device_uuid)) => Some(TableWriteView::RaiseLastSyncId { device_uuid, id }),
            _ => None,
        }
    } else if sql == DELETE_DEVICE_LOGS@ && ps.len() == 1 {
        // DELETE FROM logs WHERE device_uuid = ?
        match text_param(ps, 0) {
            Some(device_uuid) => Some(TableWriteView::DeleteDeviceLogs { device_uuid }),
            _ => None,
        }
    } else if sql == DELETE_DEVICE@ && ps.len() == 1 {
        // DELETE FROM devices WHERE uuid = ?
        match text_param(ps, 0) {
            Some(device_uuid) => Some(TableWriteView::DeleteDevice { device_uuid }),
            _ => None,
        }
    } else if sql == SET_DEVICE_ACTIVE@ && ps.len() == 2 {
        // SET is_active = ? WHERE uuid = ?
        match (bool_param(ps, 0), text_param(ps, 1)) {
            (Some(is_active), Some(device_uuid)) => Some(
                TableWriteView::SetDeviceActive { device_uuid, is_active },
            ),
            _ => None,
        }
    } else if sql == UPDATE_DEVICE@ && ps.len() == 3 {
        // SET name = ?, last_sync_id = ? WHERE uuid = ?
        match (text_param(ps, 0), int_param(ps, 1), text_param(ps, 2)) {
            (Some(name), Some(last_sync_id), Some(device_uuid)) => Some(
                TableWriteView::UpdateDevice { device_uuid, name, last_sync_id },
            ),
            _ => None,
        }
    } else if sql == UPDATE_LOG@ && ps.len() == 5 {
        // SET app = ?, timestamp = ?, duration = ? WHERE device_uuid = ? AND id = ?
        match (text_param(ps, 0), int_param(ps, 1), int_param(ps, 2), text_param(ps, 3), int_param(ps, 4)) {
            (Some(app), Some(timestamp), Some(duration), Some(device_uuid), Some(id)) => Some(
                TableWriteView::UpdateLog { device_uuid, id, app, timestamp, duration },
            ),
            _ => None,
        }
    } else {
        None
    }
}

/// The statement of every write carries out that very write: read back
/// from its SQL text, its parameters give the write's device, key and
/// values, each in the column that the write names (so executing it does
/// to the tables what `apply_write` says of the write).
pub proof fn lemma_write_statement_carries_out_the_write(w: TableWriteView)
    ensures
        statement_write(write_statement_spec(w).0, write_statement_spec(w).1) == Some(w),
        match statement_write(write_statement_spec(w).0, write_statement_spec(w).1) {
            Some(v) => forall|t: Tables| apply_write(t, v) == apply_write(t, w),
            None => false,
        },
{
    reveal_strlit("INSERT INTO logs
             (id, device_uuid, app, timestamp, duration)
             VALUES (?, ?, ?, ?, ?)
             ON CONFLICT(device_uuid, id) DO UPDATE SET
                 app = excluded.app,
                 timestamp = excluded.timestamp,
                 duration = excluded.duration");
    reveal_strlit("DELETE FROM logs
             WHERE id = ? AND device_uuid = ?");
    reveal_strlit("UPDATE devices SET last_sync_id = MAX(last_sync_id, ?) WHERE uuid = ?");
    reveal_strlit("DELETE FROM logs WHERE device_uuid = ?");
    reveal_strlit("DELETE FROM devices WHERE uuid = ?");
    reveal_strlit("UPDATE devices SET is_active = ? WHERE uuid = ?");
    reveal_strlit("UPDATE devices SET name = ?, last_sync_id = ? WHERE uuid = ?");
    reveal_strlit("UPDATE logs SET app = ?, timestamp = ?, duration = ? WHERE device_uuid = ? AND id = ?");
    broadcast use vstd::string::group_string_axioms;
    assert(UPSERT_LOG@.len() == 297);
    assert(DELETE_LOG@.len() == 62);
    assert(RAISE_LAST_SYNC_ID@.len() == 69);
    assert(DELETE_DEVICE_LOGS@.len() == 38);
    assert(DELETE_DEVICE@.len() == 34);
    assert(SET_DEVICE_ACTIVE@.len() == 47);
    assert(UPDATE_DEVICE@.len() == 60);
    assert(UPDATE_LOG@.len() == 85);
}

} // verus!
