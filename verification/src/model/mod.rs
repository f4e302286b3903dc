pub mod commit;
pub mod diff;
pub mod reflog;
pub mod repo;
