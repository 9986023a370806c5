# time_tracker

The backend of a time tracker: devices register, wait for an admin's
approval, upload and synchronise their usage logs, and read each other's
logs; an admin approves, edits and deletes devices and logs from a small web
dashboard.

- `src/` is the verified library (Verus): text handling (`text`), tokens and
  digests (`crypto`), the records (`model`), the device API's rules (`api`),
  the writes of uploads and syncs and what they do to the tables (`sync`),
  the SQL text and what the reads and the migration give (`sql`), error
  answers (`reply`), log lines (`logline`), and the admin session, forms and
  pages (`admin`).
- `app/` is the server around it: the axum routes, the SQLite database through
  sqlx, the log files, and `main`.
- `tests/` runs the library, partly against an in-memory SQLite database.

The admin password is read from `TIME_TRACKER_ADMIN_PASSWORD`; the server
listens on port 3000 and the dashboard is at `/admin`.
