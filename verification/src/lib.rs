//! Coordinated rendering of independently updating progress lines on a
//! terminal: a bounded pool of rows, an ordered registry of logical lines,
//! reclamation of rows held by finished lines, and relative cursor motion
//! planning, together with a validated percentage type for reporting
//! task progress.

mod label;
pub mod laws;
pub mod model;
mod percent;
mod progress;
mod registry;

pub use label::digit_char;
pub use label::done_label_chars;
pub use label::done_prefix;
pub use label::percent_label_chars;
pub use label::percent_prefix;
pub use percent::Percent;
pub use progress::Progress;
pub use progress::transpose;
pub use registry::Registry;
pub use registry::RoomStep;
pub use registry::TermCommand;
pub use registry::command_views;
