//! A dashboard's core for remembered Node.js project directories: the project
//! registry and its ordering, the shell and terminal classification, the
//! activation commands, the spawn recipes and the browser's state machine.

pub mod activation;
pub mod browser;
pub mod clock;
pub mod launcher;
pub mod order;
pub mod project;
pub mod shell;
pub mod terminal;
pub mod text;
