//! The role-tagged message that requests carry out and responses carry back.

use vstd::prelude::*;

verus! {

/// One role-tagged message of a chat exchange. The role is an open set of
/// string tags ("system", "user", "assistant"); no value is rejected.
#[derive(Debug, PartialEq, Eq, Clone)]
pub struct ChatMessage {
    pub role: String,
    pub content: String,
}

/// Spec-level picture of a [`ChatMessage`]: both fields as character
/// sequences.
pub struct MessageView {
    pub role: Seq<char>,
    pub content: Seq<char>,
}

impl View for ChatMessage {
    type V = MessageView;

    open spec fn view(&self) -> MessageView {
        MessageView { role: self.role@, content: self.content@ }
    }
}

} // verus!
