//! Values that arrive later: the state of one asynchronous computation,
//! and the resource that carries such a state from the server to the
//! client.

pub mod resource;

use vstd::prelude::*;

verus! {

/// Where one asynchronous computation stands.
#[derive(Debug)]
pub enum AsyncState<T> {
    /// No value has arrived yet.
    Loading,
    /// The value has arrived.
    Complete(T),
    /// The value has arrived, and a newer one is on its way.
    Reloading(T),
}

impl<T> AsyncState<T> {
    /// The value that has arrived, if any.
    pub fn current_value(&self) -> (value: Option<&T>)
        ensures
            value == (match self {
                AsyncState::Loading => None,
                AsyncState::Complete(value) => Some(value),
                AsyncState::Reloading(value) => Some(value),
            }),
    {
        match self {
            AsyncState::Loading => None,
            AsyncState::Complete(value) => Some(value),
            AsyncState::Reloading(value) => Some(value),
        }
    }

    /// Whether a value is on its way.
    pub fn loading(&self) -> (loading: bool)
        ensures
            loading == !(self is Complete),
    {
        match self {
            AsyncState::Loading => true,
            AsyncState::Complete(_) => false,
            AsyncState::Reloading(_) => true,
        }
    }

    /// The state after the computation was started anew: a value that has
    /// arrived stays, to be read until the newer one arrives.
    pub open spec fn reloading(self) -> AsyncState<T> {
        match self {
            AsyncState::Complete(value) => AsyncState::Reloading(value),
            state => state,
        }
    }
}

} // verus!
