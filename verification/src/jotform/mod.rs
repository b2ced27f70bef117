//! The first form-intake format, kept for the records it produced.
pub mod jotform_api;
pub mod raw_submission;
