//! A viewer for plain-text presentations: a source text is split into
//! slides on a delimiter, and one slide at a time is shown, with
//! navigation, auto-advance, a dark and a light theme, and zoom.
//!
//! The library holds what the viewer decides and computes; drawing, the
//! window and the clock are the host's.
pub mod error;
pub mod format;
pub mod loader;
pub mod state;
pub mod text;
pub mod viewer;

pub use error::AppError;
pub use viewer::SentTextViewer;
