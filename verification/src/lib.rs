//! Core of a single-document text editor: the document buffer with its
//! cursor and selection, the closed set of edit actions, the message-driven
//! editor state machine, and the pure halves of the asynchronous load/save
//! gateway. A host front end renders the state and performs the actual
//! file and dialog I/O; everything here is ordinary sequential logic.

pub mod document;
pub mod gateway;
pub mod highlight;
pub mod state;
