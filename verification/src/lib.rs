//! The engine of an interactive fuzzy picker: a stack of successively
//! narrowed views over a fixed list of lines, a cyclic cursor over the view
//! that is current, and the state machine that turns key events into changes
//! of both and, at the end, into the text that was picked.

pub mod matcher;
pub mod cursor;
pub mod engine;
pub mod model;
pub mod session;
pub mod text;
