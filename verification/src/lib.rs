//! The decisions of a chat bot that answers its chat with a language model.
//!
//! The library holds what the bot remembers and decides: which tool a prompt asks for, what the
//! calculator may be given, what the model is asked and what its answer says, and which of the
//! bot's own messages it has to send again. It does no input or output: each step says what is to
//! be done, and takes what came of it as a value.

pub mod unicode;
pub mod text;
pub mod offset;
pub mod list;
pub mod tool;
pub mod calculator;
pub mod weather;
pub mod model;
pub mod response;
pub mod update;
pub mod session;
pub mod laws;
