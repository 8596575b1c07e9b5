//! The rules by which WorkBuddy sessions are listed and copied between accounts.
//!
//! A session consists of three things: its transcript, a file named after its id
//! below `projects`; its row in the session database; and its entry in a mapping
//! database, which decides whose it is in the cloud. To copy a session is to make
//! all three anew, under a new id, for another account.
//!
//! The library touches no file and no database itself. Whatever takes several
//! looks at them is a job that asks for one thing at a time (`request`) and goes
//! on with the answer (`advance`) until it is over; see [`io`]. [`laws`] states
//! what holds of the jobs as a whole.
pub mod backup;
pub mod copy;
pub mod current;
pub mod edge_sync;
pub mod edition;
pub mod history;
pub mod io;
pub mod json;
pub mod laws;
pub mod layout;
pub mod listing;
pub mod mapping;
pub mod path;
pub mod row_copy;
pub mod session_id;
pub mod sql;
pub mod switch;
pub mod text;
pub mod title;
pub mod workspace;
