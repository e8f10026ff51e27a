//! Safe auto-fix for high-confidence dead-code findings: the edits on source
//! text, the preview diffs, and the plan that groups findings into actions.

pub mod lines;
pub mod diff;
pub mod import;
pub mod manifest;
pub mod plan;
pub mod apply;
pub mod snapshot;
