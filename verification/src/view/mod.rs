//! What the views compute before anything is drawn.
pub mod statusline;
pub mod style;
