//! A personal reading list: the commands a reader can give, what each does
//! to the table of entries, and the interactive session around them.

pub mod args;
pub mod commands;
pub mod data;
pub mod err;
pub mod history;
pub mod laws;
pub mod session;
pub mod store;
pub mod table;
pub mod text;
