//! An in-memory engine for a narrow subset of SQL: `CREATE TABLE`,
//! `INSERT INTO t VALUES` with literal rows, and `SELECT * FROM t`. Every
//! other shape of statement is refused with the clause that puts it outside
//! the subset. Commands come in already parsed, in the shape of [`sql`].
//!
//! Beside the engine: a reader for the script format of the SQLite test
//! suite ([`script`]), and the rendering of rows of literals as text
//! ([`bridge`]).
pub mod sql;
pub mod catalog;
pub mod executor;
pub mod engine;
pub mod laws;
pub mod text;
pub mod bridge;
pub mod script;
