pub mod layout;
pub mod views;
