//! The three phases in which a prompt session may invoke a command handler.

use vstd::prelude::*;

verus! {

/// Phase of a prompt session delivered to a handler.
///
/// A session sends any number of `Update` events while the line is being
/// edited, then exactly one of `Validate` (the line was confirmed) or
/// `Abort` (the session was cancelled). Only `Validate` may commit a
/// durable effect; a handler that previewed an effect during `Update`
/// must undo it when it receives `Abort`.
#[derive(Clone, Copy, Debug, PartialEq, Eq, Structural)]
pub enum PromptEvent {
    /// The prompt line changed while the session is open.
    Update,
    /// The line was confirmed; the one phase allowed to commit.
    Validate,
    /// The session was cancelled; previews must be rolled back.
    Abort,
}

} // verus!
