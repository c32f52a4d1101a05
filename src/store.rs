//! The stored sentences of the reading list.
use vstd::prelude::*;

verus! {

/// A stored sentence; `uri` names its recorded audio, once there is one.
pub struct Sentence {
    pub id: i32,
    pub text: String,
    pub uri: Option<String>,
}

} // verus!
