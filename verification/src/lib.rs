//! Sorting the files of one directory into subdirectories by extension.
//!
//! The library decides; its caller touches the disk. A [`FileOrganizer`] is
//! driven by events that report what happened in the directory, and answers
//! each with the next operation to carry out.

pub mod catalog;
pub mod label;
pub mod laws;
pub mod model;
pub mod organizer;
pub mod run;
pub mod summary;
