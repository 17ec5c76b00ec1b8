//! A section of a user interface that can be shown or folded away.
use vstd::prelude::*;

verus! {

/// What a collapsible section is told: fold or unfold, or pass a message on
/// to its body.
#[derive(Debug, Clone, Copy)]
pub enum Message<B> {
    Toggle,
    Body(B),
}

/// A titled section that is either expanded or folded.
#[derive(Debug)]
pub struct Collapsible {
    pub title: String,
    pub is_expanded: bool,
}

impl Collapsible {
    pub fn new(title: String, is_expanded: bool) -> (r: Self)
        ensures
            r == (Collapsible { title, is_expanded }),
    {
        Collapsible { title, is_expanded }
    }

    /// Folds an expanded section and expands a folded one.
    pub fn toggle(&mut self)
        ensures
            final(self).is_expanded == !old(self).is_expanded,
            final(self).title == old(self).title,
    {
        self.is_expanded = !self.is_expanded;
    }
}

} // verus!
