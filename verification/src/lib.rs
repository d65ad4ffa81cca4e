//! Verified engine of a periodic-command viewer: an interval scheduler,
//! a generation-tagged staleness resolver, a scroll/search view state
//! machine, and a renderer that projects the state into a frame.
//!
//! The binary around it re-runs a watched shell command on the interval,
//! feeds keystrokes and captured output to the [`Engine`], and draws the
//! [`Frame`]s it hands back.

pub mod chars;
pub mod cursor;
pub mod engine;
pub mod error;
pub mod interval;
pub mod lines;
pub mod pattern;
pub mod render;
pub mod view;

pub use cursor::saturating_add_i64;
pub use cursor::saturating_sub_i64;
pub use engine::Engine;
pub use error::RatchError;
pub use interval::Scheduler;
pub use interval::due;
pub use interval::parse_interval;
pub use lines::split_lines;
pub use pattern::Pattern;
pub use render::Frame;
pub use render::Row;
pub use render::Viewport;
pub use view::InputEvent;
pub use view::Mode;
pub use view::Outcome;
pub use view::PendingResult;
pub use view::Step;
pub use view::ViewState;
