pub mod event;
pub mod format;
pub mod glob;
pub mod input;
pub mod sort;
pub mod text;
pub mod unix;
