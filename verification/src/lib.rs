//! Verified core of a museum exhibit and maintenance tracker: records for
//! exhibits, parts and notes, the intake of maintenance requests submitted
//! through an online form, error replies, bug-report filing and database
//! backup rotation.
pub mod text;
pub mod models;
pub mod jotform_api;
pub mod jotform;
pub mod errors;
pub mod bug_report;
pub mod api;
mod random;
pub mod dev;
pub mod backup;
pub mod db;
pub mod store;
