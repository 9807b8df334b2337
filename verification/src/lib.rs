//! The background file-operation core of a terminal file browser: cached
//! directory listings, the copy/move worker's state machine, the channel that
//! carries its progress, and the handlers of the interactive session.

pub mod error;
pub mod util;
pub mod fs;
pub mod history;
pub mod io;
pub mod commands;
pub mod tab;
pub mod context;
pub mod ui;
