//! A write-combining commit scheduler and the sampling collector that measures it.
//!
//! Writers hand their requests to a single committer, which stages everything that is
//! pending in one transaction and then tells every writer how its request fared.  A
//! lock-free queue of timing samples sits beside it and is summarised once, at the end
//! of a run.

pub mod clock;
pub mod text;
pub mod sample;
pub mod store;
pub mod request;
pub mod reaper;
pub mod collector;
pub mod reporter;
pub mod lane;
