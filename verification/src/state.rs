//! What the user interface reads of a session.

use vstd::prelude::*;

verus! {

/// The shared state of a session.
pub struct DglabState {
    /// The address of the connection, in its normal form.
    pub url: String,
    /// The id of the controlling terminal; a pairing code can be made once it is there.
    pub client_id: String,
    /// Whether the APP is paired.
    pub paired: bool,
}

/// The shared state of a session, as a mathematical value.
#[verifier::ext_equal]
pub struct StateView {
    pub url: Seq<char>,
    pub client_id: Seq<char>,
    pub paired: bool,
}

impl View for DglabState {
    type V = StateView;

    open spec fn view(&self) -> StateView {
        StateView { url: self.url@, client_id: self.client_id@, paired: self.paired }
    }
}

impl Default for DglabState {
    fn default() -> (state: DglabState)
        ensures
            state@ == (StateView { url: Seq::empty(), client_id: Seq::empty(), paired: false }),
    {
        DglabState { url: String::new(), client_id: String::new(), paired: false }
    }
}

}
