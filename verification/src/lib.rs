//! An ex-style command-line interpreter for a modal editor.
//!
//! A single line of user-typed text is split into a command token and a word
//! sequence, resolved against a registry of command descriptors, parsed into
//! positional arguments and flags, checked against the command's declared
//! arity, and dispatched to a handler together with a prompt-event phase that
//! distinguishes live previews from committed effects.

pub mod args;
pub mod bytes;
pub mod charinfo;
pub mod completers;
pub mod completion;
pub mod defaults;
pub mod dispatch;
pub mod editor;
pub mod event;
pub mod lsp;
pub mod options;
pub mod registry;
pub mod shellwords;
pub mod textformat;
