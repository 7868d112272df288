//! Review-mode provider sink. Complete candidate text is retained internally
//! until the provider reaches its completion boundary (`[DONE]`); nothing is
//! released to the command-output channel before final acceptance.
use vstd::prelude::*;

use crate::text::{all_ws, is_blank, push_str};

verus! {

#[derive(Debug, PartialEq, Eq)]
pub struct ReviewBuffer {
    content: String,
    complete: bool,
}

impl ReviewBuffer {
    /// The text received so far.
    pub closed spec fn content(&self) -> Seq<char> {
        self.content@
    }

    /// Whether the provider reached its completion boundary.
    pub closed spec fn completed(&self) -> bool {
        self.complete
    }

    /// Whether the buffer holds a candidate to review: complete and not blank.
    pub open spec fn opens(&self) -> bool {
        self.completed() && !all_ws(self.content())
    }

    pub fn new() -> (b: Self)
        ensures
            b.content() == Seq::<char>::empty(),
            !b.completed(),
    {
        ReviewBuffer { content: String::new(), complete: false }
    }

    pub fn receive(&mut self, chunk: &str)
        ensures
            final(self).content() == old(self).content() + chunk@,
            final(self).completed() == old(self).completed(),
    {
        push_str(&mut self.content, chunk);
    }

    pub fn complete(&mut self)
        ensures
            final(self).content() == old(self).content(),
            final(self).completed(),
    {
        self.complete = true;
    }

    /// The text received so far.
    pub fn text(&self) -> (s: &str)
        ensures
            s@ == self.content(),
    {
        self.content.as_str()
    }

    pub fn is_complete(&self) -> (b: bool)
        ensures
            b == self.completed(),
    {
        self.complete
    }

    pub fn is_open(&self) -> (b: bool)
        ensures
            b == self.opens(),
    {
        self.complete && !is_blank(self.content.as_str())
    }

    /// The complete candidate text, once the buffer opens; nothing before.
    pub fn candidate(&self) -> (r: Option<&str>)
        ensures
            match r {
                Some(s) => self.opens() && s@ == self.content(),
                None => !self.opens(),
            },
    {
        if self.is_open() {
            Some(self.content.as_str())
        } else {
            None
        }
    }
}

impl Default for ReviewBuffer {
    fn default() -> (b: Self)
        ensures
            b.content() == Seq::<char>::empty(),
            !b.completed(),
    {
        ReviewBuffer::new()
    }
}

} // verus!
