use vstd::prelude::*;

verus! {

/// One stored exchange of a chat session: the user's message and the
/// assistant's response (empty while none was given).
#[derive(Debug)]
pub struct Message {
    pub id: String,
    pub session_id: String,
    pub message: String,
    pub response: String,
    pub timestamp: String,
}

} // verus!
