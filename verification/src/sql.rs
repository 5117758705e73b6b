//! Trusted boundary to the SQLite engine.
//!
//! Every function here is an `external_body` wrapper around rusqlite
//! calls; Verus believes the stated contracts without reading the
//! bodies.  The wrappers claim nothing about what the database holds —
//! the store keeps its own verified mirror of the three tables and owns
//! the only connection — so each contract is only the shape of the
//! result: a success, an error message, or the rows that came back.

use vstd::prelude::*;

use rusqlite::OptionalExtension;

use crate::data::{ClientRow, Config, Todo};

verus! {

#[verifier::external_type_specification]
#[verifier::external_body]
pub struct ExConnection(rusqlite::Connection);

/// Relies on rusqlite::Connection::execute: runs one CREATE TABLE IF NOT
/// EXISTS statement for the config table.
#[verifier::external_body]
pub(crate) fn create_config_table(conn: &rusqlite::Connection) -> Result<(), String> {
    conn.execute(
        "CREATE TABLE IF NOT EXISTS config (id INTEGER PRIMARY KEY, theme INTEGER NOT NULL CHECK (theme IN (0, 1)), precision INTEGER NOT NULL, k_map TEXT NOT NULL, app_tab TEXT NOT NULL, distortion_rate_tab TEXT NOT NULL, todo_tab TEXT NOT NULL)",
        (),
    ).map(|_| ()).map_err(|e| format!("{}", e))
}

/// Relies on rusqlite::Connection::execute: runs one CREATE TABLE IF NOT
/// EXISTS statement for the client table.
#[verifier::external_body]
pub(crate) fn create_client_table(conn: &rusqlite::Connection) -> Result<(), String> {
    conn.execute(
        "CREATE TABLE IF NOT EXISTS client (id INTEGER PRIMARY KEY, name TEXT NOT NULL UNIQUE, trimmer_data TEXT, fixed_data TEXT)",
        (),
    ).map(|_| ()).map_err(|e| format!("{}", e))
}

/// Relies on rusqlite::Connection::execute: runs one CREATE TABLE IF NOT
/// EXISTS statement for the todo table.
#[verifier::external_body]
pub(crate) fn create_todo_table(conn: &rusqlite::Connection) -> Result<(), String> {
    conn.execute(
        "CREATE TABLE IF NOT EXISTS todo (id INTEGER PRIMARY KEY, date INTEGER NOT NULL, content TEXT NOT NULL, finished INTEGER NOT NULL CHECK (finished IN (0, 1)), top INTEGER NOT NULL CHECK (top IN (0, 1)), top_time INTEGER NOT NULL, note INTEGER NOT NULL CHECK (note IN (0, 1)))",
        (),
    ).map(|_| ()).map_err(|e| format!("{}", e))
}

/// Relies on rusqlite::Connection::query_row with OptionalExtension: reads
/// the config row if one exists.  What it holds is whatever the file
/// holds; the caller validates it.
#[verifier::external_body]
pub(crate) fn read_config_row(conn: &rusqlite::Connection) -> Result<Option<Config>, String> {
    conn.query_row(
        "SELECT id, theme, precision, k_map, app_tab, distortion_rate_tab, todo_tab FROM config LIMIT 1",
        (),
        |row| Ok(Config {
            id: row.get(0)?, theme: row.get(1)?, precision: row.get(2)?, k_map: row.get(3)?,
            app_tab: row.get(4)?, distortion_rate_tab: row.get(5)?, todo_tab: row.get(6)?,
        }),
    ).optional().map_err(|e| format!("{}", e))
}

/// Relies on rusqlite::Statement::query_map: reads every client row as
/// stored, serialized columns included.
#[verifier::external_body]
pub(crate) fn load_client_rows(conn: &rusqlite::Connection) -> Result<Vec<ClientRow>, String> {
    let mut stmt = conn.prepare("SELECT id, name, trimmer_data, fixed_data FROM client")
        .map_err(|e| format!("{}", e))?;
    let rows = stmt.query_map([], |row| Ok(ClientRow {
        id: row.get(0)?, name: row.get(1)?, trimmer_text: row.get(2)?, fixed_text: row.get(3)?,
    })).map_err(|e| format!("{}", e))?;
    rows.collect::<Result<Vec<ClientRow>, rusqlite::Error>>().map_err(|e| format!("{}", e))
}

/// Relies on rusqlite::Statement::query_map: reads every todo row.
#[verifier::external_body]
pub(crate) fn load_todo_rows(conn: &rusqlite::Connection) -> Result<Vec<Todo>, String> {
    let mut stmt = conn.prepare("SELECT id, date, content, finished, top, top_time, note FROM todo")
        .map_err(|e| format!("{}", e))?;
    let rows = stmt.query_map([], |row| Ok(Todo {
        id: row.get(0)?, date: row.get(1)?, content: row.get(2)?, finished: row.get(3)?,
        top: row.get(4)?, top_time: row.get(5)?, note: row.get(6)?,
    })).map_err(|e| format!("{}", e))?;
    rows.collect::<Result<Vec<Todo>, rusqlite::Error>>().map_err(|e| format!("{}", e))
}

/// Relies on rusqlite::Connection::execute: REPLACE INTO the config table
/// under the row's own id, inserting or overwriting in place.
#[verifier::external_body]
pub(crate) fn write_config_row(conn: &rusqlite::Connection, c: &Config) -> Result<(), String> {
    conn.execute(
        "REPLACE INTO config (id, theme, precision, k_map, app_tab, distortion_rate_tab, todo_tab) VALUES (?1, ?2, ?3, ?4, ?5, ?6, ?7)",
        (c.id, c.theme, c.precision, &c.k_map, &c.app_tab, &c.distortion_rate_tab, &c.todo_tab),
    ).map(|_| ()).map_err(|e| format!("{}", e))
}

/// Relies on rusqlite::Connection::execute: inserts one client row; the
/// engine assigns the id.
#[verifier::external_body]
pub(crate) fn insert_client_row(
    conn: &rusqlite::Connection,
    name: &String,
    trimmer_text: &String,
    fixed_text: &String,
) -> Result<(), String> {
    conn.execute(
        "INSERT INTO client (name, trimmer_data, fixed_data) VALUES (?1, ?2, ?3)",
        (name, trimmer_text, fixed_text),
    ).map(|_| ()).map_err(|e| format!("{}", e))
}

/// Relies on rusqlite::Connection::last_insert_rowid: the row id of the
/// most recent successful insert on this connection.
#[verifier::external_body]
pub(crate) fn last_insert_id(conn: &rusqlite::Connection) -> i64 {
    conn.last_insert_rowid()
}

/// Relies on rusqlite::Connection::execute: replaces the serialized
/// trimmer column of every row with the given name.
#[verifier::external_body]
pub(crate) fn update_client_trimmer(
    conn: &rusqlite::Connection,
    name: &String,
    text: &String,
) -> Result<(), String> {
    conn.execute("UPDATE client SET trimmer_data = ?2 WHERE name = ?1", (name, text))
        .map(|_| ()).map_err(|e| format!("{}", e))
}

/// Relies on rusqlite::Connection::execute: replaces the serialized fixed
/// column of every row with the given name.
#[verifier::external_body]
pub(crate) fn update_client_fixed(
    conn: &rusqlite::Connection,
    name: &String,
    text: &String,
) -> Result<(), String> {
    conn.execute("UPDATE client SET fixed_data = ?2 WHERE name = ?1", (name, text))
        .map(|_| ()).map_err(|e| format!("{}", e))
}

/// Relies on rusqlite::Connection::execute: deletes every client row with
/// the given name.
#[verifier::external_body]
pub(crate) fn delete_client_row(conn: &rusqlite::Connection, name: &String) -> Result<(), String> {
    conn.execute("DELETE FROM client WHERE name = ?1", (name,))
        .map(|_| ()).map_err(|e| format!("{}", e))
}

/// Relies on rusqlite::Connection::execute: inserts one todo row; the
/// engine assigns the id, the given one is ignored.
#[verifier::external_body]
pub(crate) fn insert_todo_row(conn: &rusqlite::Connection, t: &Todo) -> Result<(), String> {
    conn.execute(
        "INSERT INTO todo (date, content, finished, top, top_time, note) VALUES (?1, ?2, ?3, ?4, ?5, ?6)",
        (t.date, &t.content, t.finished, t.top, t.top_time, t.note),
    ).map(|_| ()).map_err(|e| format!("{}", e))
}

/// Relies on rusqlite::Connection::execute: rewrites the payload columns
/// of every todo row whose date equals the given row's date.
#[verifier::external_body]
pub(crate) fn update_todo_rows(conn: &rusqlite::Connection, t: &Todo) -> Result<(), String> {
    conn.execute(
        "UPDATE todo SET content = ?2, finished = ?3, top = ?4, top_time = ?5, note = ?6 WHERE date = ?1",
        (t.date, &t.content, t.finished, t.top, t.top_time, t.note),
    ).map(|_| ()).map_err(|e| format!("{}", e))
}

/// Relies on rusqlite::Connection::execute: deletes every todo row with
/// the given date.
#[verifier::external_body]
pub(crate) fn delete_todo_rows(conn: &rusqlite::Connection, date: u64) -> Result<(), String> {
    conn.execute("DELETE FROM todo WHERE date = ?1", (date,))
        .map(|_| ()).map_err(|e| format!("{}", e))
}

/// Relies on rusqlite::Connection::execute: deletes every finished todo
/// row; deleting none is a success.
#[verifier::external_body]
pub(crate) fn delete_finished_todo_rows(conn: &rusqlite::Connection) -> Result<(), String> {
    conn.execute("DELETE FROM todo WHERE finished = 1", ())
        .map(|_| ()).map_err(|e| format!("{}", e))
}

} // verus!
