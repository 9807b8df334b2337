pub mod dirlist;
pub mod entry;
