//! A sink that counts the payloads it is handed.
use crate::error::{SinkError, SinkErrorView};
use crate::sink::Sink;
use vstd::prelude::*;

verus! {

/// The count after one more write: one more, until the counter is full.
pub open spec fn counted(count: nat) -> nat {
    if count < u64::MAX {
        count + 1
    } else {
        count
    }
}

/// Counts writes. The count never goes down but by `clear_message_count`, and
/// it stays at `u64::MAX` once it has got there.
#[derive(Debug)]
pub struct MessageCounter {
    message_count: u64,
}

/// What a [`MessageCounter`] stands for.
pub struct MessageCounterView {
    /// The number of writes since the counter was made or cleared.
    pub message_count: nat,
}

impl View for MessageCounter {
    type V = MessageCounterView;

    closed spec fn view(&self) -> MessageCounterView {
        MessageCounterView { message_count: self.message_count as nat }
    }
}

impl MessageCounter {
    /// A counter at zero.
    pub fn new() -> (counter: MessageCounter)
        ensures
            counter@ == (MessageCounterView { message_count: 0 }),
    {
        MessageCounter { message_count: 0 }
    }

    /// Sets the count back to zero.
    pub fn clear_message_count(&mut self)
        ensures
            final(self)@ == (MessageCounterView { message_count: 0 }),
    {
        self.message_count = 0;
    }

    /// The number of writes since the counter was made or cleared.
    pub fn message_count(&self) -> (count: &u64)
        ensures
            *count == self@.message_count,
    {
        &self.message_count
    }
}

impl Sink for MessageCounter {
    open spec fn write_error(&self, data: Seq<u8>) -> Option<SinkErrorView> {
        None
    }

    open spec fn written(&self, data: Seq<u8>, after: &Self) -> bool {
        after@.message_count == counted(self@.message_count)
    }

    open spec fn flushed(&self, after: &Self) -> bool {
        after@ == self@
    }

    /// Counts one write, whatever the payload.
    fn write(&mut self, data: &Vec<u8>) -> (result: Result<(), SinkError>) {
        if self.message_count < u64::MAX {
            self.message_count = self.message_count + 1;
        }
        Ok(())
    }

    /// Does nothing: a counter keeps nothing back.
    fn flush(&mut self) -> (result: Result<(), SinkError>) {
        Ok(())
    }
}

} // verus!
