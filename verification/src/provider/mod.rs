//! Providers: chat messages, token usage, provider setup, endpoints and the
//! server-sent event stream of an OpenAI-compatible endpoint.
pub mod openai_compat;
pub mod setup;
pub mod transport;

use vstd::prelude::*;

verus! {

#[derive(Debug, PartialEq, Eq)]
pub struct Message {
    pub role: String,
    pub content: String,
}

impl Clone for Message {
    fn clone(&self) -> (r: Self)
        ensures
            r.role@ == self.role@,
            r.content@ == self.content@,
    {
        Message { role: self.role.clone(), content: self.content.clone() }
    }
}

#[derive(Debug, Clone, Copy, PartialEq, Eq, Structural)]
pub struct TokenUsage {
    pub prompt_tokens: u32,
    pub completion_tokens: u32,
}

} // verus!
