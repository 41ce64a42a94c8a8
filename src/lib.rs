//! Keeps goal documents and their tracking issues in step: builds the issues
//! that should exist, compares them with what the tracker holds, and lists the
//! actions that close the gap.
pub mod cmp;
pub mod describe;
pub mod desired;
pub mod diff;
pub mod driver;
pub mod labels;
pub mod laws;
pub mod model;
pub mod order;
pub mod plan;
pub mod rfc;
pub mod text;
