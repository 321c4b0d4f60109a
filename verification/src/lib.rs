//! The core of a terminal file manager with modal, vim-style keys.
//!
//! The crate decides; it does not touch the terminal, the file system or a
//! runtime. Its centre is three state machines:
//!
//! - the key resolver ([`keymap`]), which turns key presses into commands
//!   under a modal grammar with counts and chords of several keys;
//! - the task manager ([`task`]), which says which background operations
//!   start and which are cancelled, and gathers their errors for the end of
//!   the session;
//! - the emitter ([`event`]), which merges terminal input, file system
//!   events and the messages of tasks into one stream of messages.
//!
//! Around them stand the model of the application and the rules of the
//! update loop ([`model`], [`update`], [`tui`]), and what the views compute
//! before anything is drawn ([`view`]).
//!
//! Each machine is defined over plain values by `spec` functions, and
//! the executable code is proved to follow them.
pub mod action;
pub mod error;
pub mod event;
pub mod keymap;
pub mod layout;
pub mod message;
pub mod model;
pub mod path;
pub mod task;
pub mod tui;
pub mod update;
pub mod view;
