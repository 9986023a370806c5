use base64::Engine;
use sha2::Digest;
use sqlx::sqlite::{SqlitePool, SqlitePoolOptions};
use sqlx::Row;
use time_tracker::api::{
    authenticate, authenticate_active, bearer_token, check, device_status, register, DeviceLookup,
};
use time_tracker::crypto::{generate_auth_token, hash_token};
use time_tracker::model::{logs_table_needs_migration, needs_is_active_column, Device, Log};
use time_tracker::reply::HttpError;
use time_tracker::sql::{
    insert_device_statement, new_logs_statement, write_statement, SqlValue, Statement,
    ADD_IS_ACTIVE_COLUMN, CREATE_DEVICES_TABLE, CREATE_LOGS_TABLE, MIGRATE_COPY,
    MIGRATE_CREATE_NEW, MIGRATE_DROP_OLD, MIGRATE_DROP_ORPHANS, MIGRATE_RENAME,
    NEW_LOGS_OF_ACTIVE_DEVICE, SELECT_DEVICE_BY_HASH, SELECT_DEVICE_COLUMNS, SET_DEVICE_ACTIVE,
};
use time_tracker::sync::{
    delete_device_writes, delete_log_write, set_device_active_write, update_device_write,
    update_log_write, highest_log_id, plan_sync, plan_upload_all_logs, sync_writes, TableWrite,
};
use time_tracker::admin::forms::{parse_device_form, parse_log_form, require_rows_affected};
use time_tracker::crypto::device_uuid_from_bytes;

fn block_on<F: std::future::Future>(f: F) -> F::Output {
    tokio::runtime::Builder::new_current_thread().enable_all().build().unwrap().block_on(f)
}

async fn memory_pool() -> SqlitePool {
    SqlitePoolOptions::new().max_connections(1).connect("sqlite::memory:").await.unwrap()
}

async fn check_state(pool: &SqlitePool) {
    sqlx::query(CREATE_LOGS_TABLE).execute(pool).await.unwrap();
    sqlx::query(CREATE_DEVICES_TABLE).execute(pool).await.unwrap();
}

fn bound(s: &Statement) -> sqlx::query::Query<'_, sqlx::Sqlite, sqlx::sqlite::SqliteArguments<'_>> {
    let mut q = sqlx::query(s.sql);
    for p in &s.params {
        q = match p {
            SqlValue::Text(t) => q.bind(t.clone()),
            SqlValue::Integer(i) => q.bind(*i),
            SqlValue::Boolean(b) => q.bind(*b),
        };
    }
    q
}

async fn insert_device(pool: &SqlitePool, device: &Device) {
    let s = insert_device_statement(device);
    bound(&s).execute(pool).await.unwrap();
}

async fn activate(pool: &SqlitePool, uuid: &str) {
    sqlx::query(SET_DEVICE_ACTIVE).bind(true).bind(uuid).execute(pool).await.unwrap();
}

async fn lookup(pool: &SqlitePool, token: &str) -> DeviceLookup {
    let hash = hash_token(token);
    match sqlx::query(SELECT_DEVICE_BY_HASH).bind(hash).fetch_one(pool).await {
        Ok(row) => DeviceLookup::Found(Device {
            uuid: row.get("uuid"),
            hash_token: row.get("hash_token"),
            name: row.get("name"),
            last_sync_id: row.get("last_sync_id"),
            is_active: row.get("is_active"),
        }),
        Err(sqlx::Error::RowNotFound) => DeviceLookup::NotFound,
        Err(e) => DeviceLookup::Failed(e.to_string()),
    }
}

async fn apply(pool: &SqlitePool, writes: &[TableWrite]) -> Vec<u64> {
    let mut tx = pool.begin().await.unwrap();
    let mut rows = Vec::new();
    for w in writes {
        let s = write_statement(w);
        rows.push(bound(&s).execute(&mut *tx).await.unwrap().rows_affected());
    }
    tx.commit().await.unwrap();
    rows
}

async fn sync(pool: &SqlitePool, token: &str, logs: Vec<Log>, deleted: Vec<i64>) -> Result<u16, HttpError> {
    let (_device, writes) = plan_sync(lookup(pool, token).await, &logs, &deleted)?;
    apply(pool, &writes).await;
    Ok(200)
}

async fn test_state() -> (SqlitePool, String, String) {
    let pool = memory_pool().await;
    check_state(&pool).await;
    let token = "test-token".to_string();
    let device = Device::new("desktop".to_string(), &token).unwrap();
    let uuid = device.uuid.clone();
    insert_device(&pool, &device).await;
    activate(&pool, &uuid).await;
    (pool, token, uuid)
}

async fn insert_test_log(pool: &SqlitePool, uuid: &str, id: i64) {
    sqlx::query(
        "INSERT INTO logs (id, device_uuid, app, timestamp, duration)
         VALUES (?, ?, 'Editor', 100, 15)",
    )
    .bind(id)
    .bind(uuid)
    .execute(pool)
    .await
    .unwrap();
}

fn log(id: i64, uuid: &str, app: &str, timestamp: i64, duration: i64) -> Log {
    Log { id, device_uuid: uuid.to_string(), app: app.to_string(), timestamp, duration }
}

#[test]
fn deletion_only_sync_is_accepted_and_idempotent() {
    block_on(async {
        let (pool, token, uuid) = test_state().await;
        insert_test_log(&pool, &uuid, 7).await;
        for _ in 0..2 {
            let result = sync(&pool, &token, vec![], vec![7]).await;
            assert_eq!(result.unwrap(), 200);
        }
        let count: i64 = sqlx::query_scalar("SELECT COUNT(*) FROM logs WHERE device_uuid = ? AND id = 7")
            .bind(uuid)
            .fetch_one(&pool)
            .await
            .unwrap();
        assert_eq!(count, 0);
    })
}

#[test]
fn sync_updates_an_existing_log_after_its_duration_changes() {
    block_on(async {
        let (pool, token, uuid) = test_state().await;
        insert_test_log(&pool, &uuid, 7).await;
        let result = sync(&pool, &token, vec![log(7, &uuid, "Editor", 100, 45)], vec![]).await;
        assert_eq!(result.unwrap(), 200);
        let duration: i64 = sqlx::query_scalar("SELECT duration FROM logs WHERE device_uuid = ? AND id = 7")
            .bind(uuid)
            .fetch_one(&pool)
            .await
            .unwrap();
        assert_eq!(duration, 45);
    })
}

#[test]
fn invalid_token_cannot_insert_or_delete_logs() {
    block_on(async {
        let (pool, _token, uuid) = test_state().await;
        insert_test_log(&pool, &uuid, 7).await;
        let result = sync(&pool, "invalid", vec![log(8, &uuid, "Browser", 200, 20)], vec![7]).await;
        assert_eq!(result.unwrap_err().status, 401);
        let ids: Vec<i64> = sqlx::query_scalar("SELECT id FROM logs WHERE device_uuid = ? ORDER BY id")
            .bind(uuid)
            .fetch_all(&pool)
            .await
            .unwrap();
        assert_eq!(ids, vec![7]);
    })
}

#[test]
fn deleted_device_token_is_rejected() {
    block_on(async {
        let (pool, token, uuid) = test_state().await;
        sqlx::query("DELETE FROM devices WHERE uuid = ?").bind(uuid).execute(&pool).await.unwrap();
        let result = sync(&pool, &token, vec![], vec![]).await;
        assert_eq!(result.unwrap_err().status, 401);
    })
}

#[test]
fn pending_device_can_check_status_but_cannot_sync() {
    block_on(async {
        let pool = memory_pool().await;
        check_state(&pool).await;
        let token = "pending-token".to_string();
        let device = Device::new("pending-desktop".to_string(), &token).unwrap();
        insert_device(&pool, &device).await;

        let status = device_status(lookup(&pool, &token).await).unwrap();
        assert!(!status.is_active);

        let header = format!("Bearer {token}");
        let bearer = bearer_token(Some(header.as_str())).unwrap();
        let view_result = authenticate_active(lookup(&pool, &bearer).await);
        assert_eq!(view_result.unwrap_err().status, 403);

        let result = sync(&pool, &token, vec![], vec![]).await;
        assert_eq!(result.unwrap_err().status, 403);
    })
}

#[test]
fn last_sync_id_never_regresses_on_retried_out_of_order_requests() {
    block_on(async {
        let pool = memory_pool().await;
        check_state(&pool).await;
        let token = "test-token".to_string();
        let device = Device::new("test-device".to_string(), &token).unwrap();
        let uuid = device.uuid.clone();
        insert_device(&pool, &device).await;
        sqlx::query("UPDATE devices SET is_active = 1 WHERE uuid = ?").bind(&uuid).execute(&pool).await.unwrap();

        apply(&pool, &[TableWrite::RaiseLastSyncId { device_uuid: uuid.clone(), id: 10 }]).await;
        apply(&pool, &[TableWrite::RaiseLastSyncId { device_uuid: uuid.clone(), id: 4 }]).await;

        let last_sync_id: i64 = sqlx::query_scalar("SELECT last_sync_id FROM devices WHERE uuid = ?")
            .bind(uuid)
            .fetch_one(&pool)
            .await
            .unwrap();
        assert_eq!(last_sync_id, 10);
    })
}

#[test]
fn legacy_devices_become_inactive_when_approval_is_added() {
    block_on(async {
        let pool = memory_pool().await;
        sqlx::query(
            "CREATE TABLE devices (
                uuid TEXT PRIMARY KEY NOT NULL,
                hash_token TEXT NOT NULL,
                name TEXT NOT NULL,
                last_sync_id INTEGER NOT NULL DEFAULT 0
            )",
        )
        .execute(&pool)
        .await
        .unwrap();
        sqlx::query("INSERT INTO devices (uuid, hash_token, name) VALUES ('legacy', 'hash', 'Legacy')")
            .execute(&pool)
            .await
            .unwrap();

        let columns: Vec<String> = sqlx::query_scalar(SELECT_DEVICE_COLUMNS).fetch_all(&pool).await.unwrap();
        assert!(needs_is_active_column(&columns));
        sqlx::query(ADD_IS_ACTIVE_COLUMN).execute(&pool).await.unwrap();
        let columns: Vec<String> = sqlx::query_scalar(SELECT_DEVICE_COLUMNS).fetch_all(&pool).await.unwrap();
        assert!(!needs_is_active_column(&columns));

        let is_active: bool = sqlx::query_scalar("SELECT is_active FROM devices WHERE uuid = 'legacy'")
            .fetch_one(&pool)
            .await
            .unwrap();
        assert!(!is_active);
    })
}

#[test]
fn deleting_a_device_removes_its_logs_in_the_same_operation() {
    block_on(async {
        let pool = memory_pool().await;
        check_state(&pool).await;
        let token = "test-token".to_string();
        let device = Device::new("desktop".to_string(), &token).unwrap();
        let uuid = device.uuid.clone();
        insert_device(&pool, &device).await;
        sqlx::query(
            "INSERT INTO logs (id, device_uuid, app, timestamp, duration)
             VALUES (1, ?, 'Editor', 100, 15)",
        )
        .bind(&uuid)
        .execute(&pool)
        .await
        .unwrap();

        let rows = apply(&pool, &delete_device_writes(&uuid)).await;
        assert!(require_rows_affected(rows[1], "device not found").is_ok());

        let device_count: i64 = sqlx::query_scalar("SELECT COUNT(*) FROM devices WHERE uuid = ?")
            .bind(&uuid)
            .fetch_one(&pool)
            .await
            .unwrap();
        let log_count: i64 = sqlx::query_scalar("SELECT COUNT(*) FROM logs WHERE device_uuid = ?")
            .bind(uuid)
            .fetch_one(&pool)
            .await
            .unwrap();
        assert_eq!((device_count, log_count), (0, 0));
    })
}

#[test]
fn admin_can_activate_a_pending_device() {
    block_on(async {
        let pool = memory_pool().await;
        check_state(&pool).await;
        let token = "test-token".to_string();
        let device = Device::new("desktop".to_string(), &token).unwrap();
        let uuid = device.uuid.clone();
        insert_device(&pool, &device).await;

        let rows = apply(&pool, &[set_device_active_write(&uuid, true)]).await;
        assert!(require_rows_affected(rows[0], "device not found").is_ok());

        let active: bool = sqlx::query_scalar("SELECT is_active FROM devices WHERE uuid = ?")
            .bind(uuid)
            .fetch_one(&pool)
            .await
            .unwrap();
        assert!(active);
    })
}

fn device(active: bool) -> Device {
    let mut d = Device::with_uuid("u-1".to_string(), "desk".to_string(), "tok");
    d.is_active = active;
    d
}

#[test]
fn authentication_answers() {
    assert_eq!(check(), "Time Tracker Backend v1");
    assert_eq!(authenticate(DeviceLookup::Found(device(false))).unwrap().uuid, "u-1");
    let e = authenticate(DeviceLookup::NotFound).unwrap_err();
    assert_eq!((e.status, e.message.as_str()), (401, "invalid token"));
    let e = authenticate(DeviceLookup::Failed("disk full".to_string())).unwrap_err();
    assert_eq!((e.status, e.message.as_str()), (500, "disk full"));
    let e = authenticate_active(DeviceLookup::Found(device(false))).unwrap_err();
    assert_eq!((e.status, e.message.as_str()), (403, "device is waiting for admin approval"));
    assert!(authenticate_active(DeviceLookup::Found(device(true))).is_ok());
}

#[test]
fn bearer_tokens() {
    assert_eq!(bearer_token(Some("Bearer abc")).unwrap(), "abc");
    for bad in [None, Some("Bearer "), Some("bearer abc"), Some("Basic abc"), Some("")] {
        let e = bearer_token(bad).unwrap_err();
        assert_eq!((e.status, e.message.as_str()), (401, "missing bearer token"));
    }
}

#[test]
fn registration_hands_out_a_token_that_identifies_the_pending_device() {
    let (d, ret) = register("laptop".to_string()).unwrap();
    assert_eq!(d.name, "laptop");
    assert_eq!(ret.uuid, d.uuid);
    assert!(!ret.is_active && !d.is_active);
    assert_eq!(d.last_sync_id, 0);
    assert_eq!(hash_token(&ret.token), d.hash_token);
    assert_eq!(d.uuid.len(), 36);
    assert_eq!(d.uuid.as_bytes()[14], b'4');
    let parsed = uuid::Uuid::parse_str(&d.uuid).unwrap();
    assert_eq!(parsed.to_string(), d.uuid);
}

#[test]
fn tokens_and_hashes() {
    let t = generate_auth_token().unwrap();
    assert_eq!(t.len(), 43);
    assert!(t.chars().all(|c| c.is_ascii_alphanumeric() || c == '-' || c == '_'));
    assert_ne!(t, generate_auth_token().unwrap());
    // SHA-256 of "test-token", URL-safe base64 without padding.
    let expected = base64::engine::general_purpose::URL_SAFE_NO_PAD.encode(sha2::Sha256::digest(b"test-token"));
    assert_eq!(hash_token("test-token"), expected);
    assert_ne!(hash_token("test-token"), "test-token");
}

#[test]
fn sync_writes_stay_with_the_authenticated_device() {
    let logs = vec![log(3, "someone-else", "A", 1, 2), log(9, "u-1", "B", 3, 4), log(3, "x", "C", 5, 6)];
    let ws = sync_writes("u-1", &logs, &vec![9]);
    assert_eq!(ws.len(), 5);
    for w in &ws {
        match w {
            TableWrite::Upsert { device_uuid, .. }
            | TableWrite::Delete { device_uuid, .. }
            | TableWrite::RaiseLastSyncId { device_uuid, .. } => assert_eq!(device_uuid, "u-1"),
            _ => panic!("unexpected write"),
        }
    }
    assert_eq!(ws[4], TableWrite::RaiseLastSyncId { device_uuid: "u-1".to_string(), id: 9 });
    assert_eq!(highest_log_id(&logs), 9);
    let s = write_statement(&ws[3]);
    assert_eq!(s.params, vec![SqlValue::Integer(9), SqlValue::Text("u-1".to_string())]);
}

#[test]
fn upload_requires_logs_and_an_approved_device() {
    let e = plan_upload_all_logs(DeviceLookup::Found(device(true)), &vec![]).unwrap_err();
    assert_eq!((e.status, e.message.as_str()), (400, "no logs provided"));
    let e = plan_upload_all_logs(DeviceLookup::Found(device(false)), &vec![]).unwrap_err();
    assert_eq!(e.status, 403);
    let (_, ws) = plan_upload_all_logs(DeviceLookup::Found(device(true)), &vec![log(2, "u-1", "A", 0, 1)]).unwrap();
    assert_eq!(ws.len(), 2);
    let (_, ws) = plan_sync(DeviceLookup::Found(device(true)), &vec![], &vec![]).unwrap();
    assert!(ws.is_empty());
}

#[test]
fn logs_table_migration_is_needed_only_for_the_old_key() {
    assert!(!logs_table_needs_migration(None));
    assert!(!logs_table_needs_migration(Some(CREATE_LOGS_TABLE)));
    assert!(logs_table_needs_migration(Some("CREATE TABLE logs (id INTEGER PRIMARY KEY, device_uuid TEXT)")));
}

#[test]
fn a_sync_files_every_log_under_the_syncing_device_only() {
    block_on(async {
        let (pool, token, uuid) = test_state().await;
        let other = Device::new("laptop".to_string(), &"other-token".to_string()).unwrap();
        let other_uuid = other.uuid.clone();
        insert_device(&pool, &other).await;
        activate(&pool, &other_uuid).await;
        insert_test_log(&pool, &other_uuid, 7).await;

        // The payload names the other device and deletes log 7: only the
        // syncing device's log 7 could be touched, and it has none.
        let result = sync(&pool, &token, vec![log(7, &other_uuid, "Intruder", 1, 1)], vec![7]).await;
        assert_eq!(result.unwrap(), 200);

        let other_app: String = sqlx::query_scalar("SELECT app FROM logs WHERE device_uuid = ? AND id = 7")
            .bind(&other_uuid)
            .fetch_one(&pool)
            .await
            .unwrap();
        assert_eq!(other_app, "Editor");
        let own: i64 = sqlx::query_scalar("SELECT COUNT(*) FROM logs WHERE device_uuid = ?")
            .bind(&uuid)
            .fetch_one(&pool)
            .await
            .unwrap();
        assert_eq!(own, 0);
        let last: i64 = sqlx::query_scalar("SELECT last_sync_id FROM devices WHERE uuid = ?")
            .bind(&uuid)
            .fetch_one(&pool)
            .await
            .unwrap();
        assert_eq!(last, 7);
    })
}

#[test]
fn admin_updates_change_the_row_or_find_none() {
    block_on(async {
        let (pool, _token, uuid) = test_state().await;
        insert_test_log(&pool, &uuid, 7).await;

        let update = parse_device_form(" Renamed ", "12").unwrap();
        let rows = apply(&pool, &[update_device_write(&uuid, update)]).await;
        assert_eq!(rows, vec![1]);
        let (name, last, active): (String, i64, bool) =
            sqlx::query_as("SELECT name, last_sync_id, is_active FROM devices WHERE uuid = ?")
                .bind(&uuid)
                .fetch_one(&pool)
                .await
                .unwrap();
        assert_eq!((name.as_str(), last, active), ("Renamed", 12, true));

        let rows = apply(&pool, &[set_device_active_write("no-such-device", false)]).await;
        assert_eq!(require_rows_affected(rows[0], "device not found").unwrap_err().status, 404);

        let update = parse_log_form("Browser", "300", "60").unwrap();
        let rows = apply(&pool, &[update_log_write(&uuid, 7, update)]).await;
        assert_eq!(rows, vec![1]);
        let (app, ts, dur): (String, i64, i64) =
            sqlx::query_as("SELECT app, timestamp, duration FROM logs WHERE device_uuid = ? AND id = 7")
                .bind(&uuid)
                .fetch_one(&pool)
                .await
                .unwrap();
        assert_eq!((app.as_str(), ts, dur), ("Browser", 300, 60));

        let update = parse_log_form("X", "1", "1").unwrap();
        let rows = apply(&pool, &[update_log_write(&uuid, 8, update)]).await;
        assert_eq!(rows, vec![0]);

        let rows = apply(&pool, &[delete_log_write(&uuid, 7), delete_log_write(&uuid, 7)]).await;
        assert_eq!(rows, vec![1, 0]);
    })
}

#[test]
fn device_identifiers_are_the_uuid_text_of_their_bytes() {
    let bytes = [0xffu8; 16];
    let text = device_uuid_from_bytes(bytes);
    assert_eq!(text, uuid::Builder::from_random_bytes(bytes).into_uuid().to_string());
    assert_eq!(text, "ffffffff-ffff-4fff-bfff-ffffffffffff");
    let text = device_uuid_from_bytes([0u8; 16]);
    assert_eq!(text, "00000000-0000-4000-8000-000000000000");
}

async fn new_log_ids(pool: &SqlitePool, uuid: &str, after: i64) -> Vec<(i64, i64)> {
    let s = new_logs_statement(uuid, after);
    let mut rows: Vec<(i64, i64)> = bound(&s)
        .fetch_all(pool)
        .await
        .unwrap()
        .iter()
        .map(|r| (r.get::<i64, _>("id"), r.get::<i64, _>("duration")))
        .collect();
    rows.sort();
    rows
}

#[test]
fn synced_logs_are_read_back_by_other_devices() {
    block_on(async {
        let (pool, token, uuid) = test_state().await;
        let s = new_logs_statement(&uuid, 3);
        assert_eq!(s.sql, NEW_LOGS_OF_ACTIVE_DEVICE);
        assert_eq!(s.params, vec![SqlValue::Text(uuid.clone()), SqlValue::Integer(3)]);
        let logs = vec![
            log(2, &uuid, "Editor", 100, 10),
            log(5, &uuid, "Browser", 200, 20),
            log(6, &uuid, "Shell", 300, 30),
            log(5, &uuid, "Browser", 200, 25),
        ];
        assert_eq!(sync(&pool, &token, logs, vec![6]).await.unwrap(), 200);
        assert_eq!(new_log_ids(&pool, &uuid, 3).await, vec![(5, 25)]);
        assert_eq!(new_log_ids(&pool, &uuid, 0).await, vec![(2, 10), (5, 25)]);
        activate_as(&pool, &uuid, false).await;
        assert_eq!(new_log_ids(&pool, &uuid, 0).await, vec![]);
    })
}

async fn activate_as(pool: &SqlitePool, uuid: &str, active: bool) {
    sqlx::query(SET_DEVICE_ACTIVE).bind(active).bind(uuid).execute(pool).await.unwrap();
}

#[test]
fn migration_keeps_the_logs_that_name_a_device() {
    block_on(async {
        let pool = memory_pool().await;
        sqlx::query(CREATE_DEVICES_TABLE).execute(&pool).await.unwrap();
        for uuid in ["a", "b"] {
            sqlx::query("INSERT INTO devices (uuid, hash_token, name) VALUES (?, 'h', 'n')")
                .bind(uuid)
                .execute(&pool)
                .await
                .unwrap();
        }
        sqlx::query(
            "CREATE TABLE logs (id INTEGER PRIMARY KEY, device_uuid TEXT, app TEXT NOT NULL,
             timestamp INTEGER NOT NULL, duration INTEGER NOT NULL DEFAULT 0)",
        )
        .execute(&pool)
        .await
        .unwrap();
        for (id, device) in [(1, Some("a")), (2, None), (3, Some("")), (4, Some("b"))] {
            sqlx::query("INSERT INTO logs (id, device_uuid, app, timestamp) VALUES (?, ?, 'Editor', 0)")
                .bind(id)
                .bind(device)
                .execute(&pool)
                .await
                .unwrap();
        }
        let ddl: Option<String> =
            sqlx::query_scalar("SELECT sql FROM sqlite_master WHERE type = 'table' AND name = 'logs'")
                .fetch_optional(&pool)
                .await
                .unwrap();
        assert!(logs_table_needs_migration(ddl.as_deref()));
        for step in [MIGRATE_DROP_ORPHANS, MIGRATE_CREATE_NEW, MIGRATE_COPY, MIGRATE_DROP_OLD, MIGRATE_RENAME] {
            sqlx::query(step).execute(&pool).await.unwrap();
        }
        let kept: Vec<(String, i64)> =
            sqlx::query("SELECT device_uuid, id FROM logs ORDER BY device_uuid, id")
                .fetch_all(&pool)
                .await
                .unwrap()
                .iter()
                .map(|r| (r.get::<String, _>("device_uuid"), r.get::<i64, _>("id")))
                .collect();
        assert_eq!(kept, vec![("a".to_string(), 1), ("b".to_string(), 4)]);
        let ddl: Option<String> =
            sqlx::query_scalar("SELECT sql FROM sqlite_master WHERE type = 'table' AND name = 'logs'")
                .fetch_optional(&pool)
                .await
                .unwrap();
        assert!(!logs_table_needs_migration(ddl.as_deref()));
    })
}
