//! The core of a clipboard-history tracker: a bounded, deduplicated,
//! newest-first history store, a single-slot suppression gate that keeps the
//! program's own clipboard writes out of the history, and the decision logic
//! of the polling monitor. Reading and writing the OS clipboard, and
//! delivering notifications, are left to the surrounding application.

pub mod clock;
pub mod gate;
pub mod history;
pub mod monitor;
pub mod text;

pub use history::ClipboardItem;
