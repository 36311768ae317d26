//! Post-push issue notifier: turns the report of a push into the comments
//! that are posted to the issues named in the pushed commits.

pub mod text;
pub mod keys;
pub mod report;
pub mod commit;
pub mod comment;
pub mod laws;
pub mod tracker;
