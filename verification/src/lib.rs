//! An activity log behind a session layer.
//!
//! Users record actions, log activities of those actions, and attach notes
//! to activities. The ledger of a user is made of two kinds of table: the
//! interning table of [`value_store`], which gives each text one identity,
//! and the ordered multi-map of [`pair_relation`]. [`boxchecker`] states what
//! the operations of a ledger do, and [`sqlite_boxchecker`] holds the ledger
//! itself. [`auth`] enrolls users, checks passwords and grants and checks
//! session tokens, whose grammar is in [`token`]. [`routes`] turns requests
//! into replies.
//!
//! The tables live in memory. The layer that owns the backing store reads it
//! into them, and writes back each row that a call adds.

pub mod auth;
pub mod boxchecker;
pub mod clock;
pub mod decimal;
pub mod hashing;
pub mod pair_relation;
pub mod paging;
pub mod routes;
pub mod sqlite_boxchecker;
pub mod text;
pub mod token;
pub mod value_store;
