//! What holds of the rules and of the jobs as a whole: how each job ends, and what
//! it never does, whatever comes back.
pub mod backup;
pub mod changes;
pub mod copy;
pub mod current;
pub mod edge_sync;
pub mod edition;
pub mod history;
pub mod jobs;
pub mod layout;
pub mod listing;
pub mod mapping;
pub mod results;
pub mod row_copy;
pub mod switch;
pub mod text;
pub mod values;
pub mod views;
pub mod wording;
pub mod workspace;
