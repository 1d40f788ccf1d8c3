//! The error values the library returns: serialization, startup, state
//! transition and channel construction failures, each carrying a message.

use vstd::prelude::*;

verus! {

/// A state change could not be turned into its stored form.
#[derive(Clone, Debug)]
pub struct SerializationError;

impl SerializationError {
    /// The diagnostic text of this error.
    pub fn message(&self) -> (r: String)
        ensures
            r@ == "Could not serialize state change"@,
    {
        "Could not serialize state change".to_owned()
    }
}

/// A failure that halts the service, such as restoring from an empty log.
#[derive(Clone, Debug)]
pub struct RaidenError {
    pub msg: String,
}

impl RaidenError {
    /// The diagnostic text of this error.
    pub fn message(&self) -> (r: String)
        ensures
            r@ == self.msg@,
    {
        self.msg.clone()
    }
}

/// A state change was rejected by the chain reducer; the state did not
/// advance.
#[derive(Clone, Debug)]
pub struct StateTransitionError {
    pub msg: String,
}

impl StateTransitionError {
    /// The diagnostic text of this error.
    pub fn message(&self) -> (r: String)
        ensures
            r@ == self.msg@,
    {
        self.msg.clone()
    }
}

/// A channel could not be constructed, such as a reveal timeout that is not
/// strictly below the settle timeout.
#[derive(Clone, Debug)]
pub struct ChannelError {
    pub msg: String,
}

impl ChannelError {
    /// The diagnostic text of this error.
    pub fn message(&self) -> (r: String)
        ensures
            r@ == self.msg@,
    {
        self.msg.clone()
    }
}

} // verus!
