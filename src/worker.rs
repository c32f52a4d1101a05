//! The messages from the webhook handler to the subscription worker.
use vstd::prelude::*;
use crate::schema::Event;

verus! {

#[derive(PartialEq, Eq, Structural, Clone, Copy, Debug)]
pub enum DataType {
    Add,
    Delete,
}

pub struct Data {
    pub event: Event,
    pub typ: DataType,
}

impl Data {
    pub fn new(e: Event, t: DataType) -> (r: Data)
        ensures
            r.event == e,
            r.typ == t,
    {
        Data { event: e, typ: t }
    }
}

/// What a subscription command does: it removes a subscription that exists
/// and adds one that does not.
pub fn toggle(exists: bool) -> (r: DataType)
    ensures
        r == (if exists {
            DataType::Delete
        } else {
            DataType::Add
        }),
{
    if exists {
        DataType::Delete
    } else {
        DataType::Add
    }
}

} // verus!
