//! The click-counter demo application's state and messages.

use vstd::prelude::*;

verus! {

/// What the demo's widgets send.
#[derive(Debug, Clone, Copy, PartialEq, Eq, Structural)]
pub enum Message {
    Nothing,
    Clicked,
}

/// The demo's state: how many times the button was clicked.
pub struct State {
    click_count: u32,
}

impl State {
    /// The number of clicks so far.
    pub closed spec fn clicks(&self) -> nat {
        self.click_count as nat
    }

    /// The state before any click.
    pub fn new() -> (res: Self)
        ensures
            res.clicks() == 0,
    {
        State { click_count: 0 }
    }

    /// Apply a message: a click adds one to the count, `Nothing` changes nothing.
    pub fn update(&mut self, message: Message)
        requires
            message == Message::Clicked ==> old(self).clicks() < u32::MAX,
        ensures
            final(self).clicks() == if message == Message::Clicked {
                old(self).clicks() + 1
            } else {
                old(self).clicks()
            },
    {
        match message {
            Message::Clicked => {
                self.click_count = self.click_count + 1;
            },
            Message::Nothing => {},
        }
    }

    /// The number of clicks so far.
    pub fn click_count(&self) -> (n: u32)
        ensures
            n == self.clicks(),
    {
        self.click_count
    }
}

} // verus!
