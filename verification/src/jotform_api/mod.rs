//! Intake of maintenance requests from the online form service.
pub mod jotform_api;
pub mod raw_submission;
pub mod sync;
