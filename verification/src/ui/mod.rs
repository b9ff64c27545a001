pub mod command;
pub mod layout;
pub mod keys;
