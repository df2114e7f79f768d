//! An interactive command shell, split into a verified core and a thin
//! terminal front end.
//!
//! The core is everything that decides: the line editor's state machine
//! (buffer, cursor, history recall), the pipeline parser, and the per-stage
//! dispatch rules of the execution engine (builtins, pipe wiring).  The front
//! end only performs what the core decided: it reads key events, redraws the
//! prompt line, spawns processes and waits on them.

pub mod chars;
pub mod editor;
pub mod history;
pub mod parser;
pub mod pipeline;
