pub mod builtins;
pub mod control;
pub mod editor;
pub mod fileops;
pub mod foreground;
pub mod functions;
pub mod grammar;
pub mod job;
pub mod launcher;
pub mod lexer;
pub mod reaper;
pub mod repl;
pub mod status;
pub mod terminal;
pub mod text;
