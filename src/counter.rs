//! A counter that buttons step up and down.
use vstd::prelude::*;

verus! {

#[derive(Debug, Clone, Copy, PartialEq, Eq, Structural)]
pub enum Message {
    IncrementPressed,
    DecrementPressed,
}

/// A count.
#[derive(Debug, Default)]
pub struct Counter {
    pub value: i32,
}

impl Counter {
    /// Steps the count up or down by one.
    pub fn update(&mut self, message: Message)
        requires
            message == Message::IncrementPressed ==> old(self).value < i32::MAX,
            message == Message::DecrementPressed ==> old(self).value > i32::MIN,
        ensures
            final(self).value == old(self).value + (if message == Message::IncrementPressed { 1int } else { -1int }),
    {
        match message {
            Message::IncrementPressed => {
                self.value = self.value + 1;
            },
            Message::DecrementPressed => {
                self.value = self.value - 1;
            },
        }
    }
}

} // verus!
