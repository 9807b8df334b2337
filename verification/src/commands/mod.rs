pub mod bulk_rename;
pub mod cursor_move;
pub mod key_command;
pub mod parent_cursor_move;
pub mod reload;
pub mod search;
pub mod selection;
