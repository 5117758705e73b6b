//! Persistence core of a desktop productivity tool.
//!
//! A [`store::Store`] owns the single connection to an on-disk SQLite
//! database holding three tables: the singleton user-preferences row, a
//! customer registry whose nested measurement records are serialized into
//! text columns, and a task list.  The store keeps a verified in-memory
//! mirror of the three tables; every mutation first executes the matching
//! SQL statement and then updates the mirror, so the mirror is current for
//! as long as the store is the only writer, which exclusive ownership of
//! the connection guarantees.

pub mod codec;
pub mod data;
pub mod error;
pub mod laws;
mod sql;
pub mod store;

pub use data::{Client, ClientData, ClientRow, Config, Todo};
pub use error::{DBError, ErrorKind};
pub use store::Store;
