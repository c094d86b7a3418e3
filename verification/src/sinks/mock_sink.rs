//! A sink that keeps what it is handed, for tests of code that feeds sinks.
use crate::error::{SinkError, SinkErrorView};
use crate::sink::Sink;
use vstd::prelude::*;

verus! {

/// Keeps every payload: they are appended, in order, to one buffer.
#[derive(Debug)]
pub struct MockSink {
    data: Vec<u8>,
}

/// What a [`MockSink`] stands for.
pub struct MockSinkView {
    /// The payloads written so far, one after the other.
    pub data: Seq<u8>,
}

impl View for MockSink {
    type V = MockSinkView;

    closed spec fn view(&self) -> MockSinkView {
        MockSinkView { data: self.data@ }
    }
}

impl MockSink {
    /// A sink that holds nothing yet.
    pub fn new() -> (sink: MockSink)
        ensures
            sink@ == (MockSinkView { data: Seq::empty() }),
    {
        let sink = MockSink { data: Vec::new() };
        assert(sink@.data =~= Seq::empty());
        sink
    }

    /// The payloads written so far, one after the other.
    pub fn data(&self) -> (data: &Vec<u8>)
        ensures
            data@ == self@.data,
    {
        &self.data
    }
}

impl Sink for MockSink {
    open spec fn write_error(&self, data: Seq<u8>) -> Option<SinkErrorView> {
        None
    }

    open spec fn written(&self, data: Seq<u8>, after: &Self) -> bool {
        after@.data == self@.data + data
    }

    open spec fn flushed(&self, after: &Self) -> bool {
        after@ == self@
    }

    /// Appends `data` to what the sink holds.
    fn write(&mut self, data: &Vec<u8>) -> (result: Result<(), SinkError>) {
        let mut i: usize = 0;
        while i < data.len()
            invariant
                i <= data.len(),
                self.data@ == old(self).data@ + data@.subrange(0, i as int),
            decreases data.len() - i,
        {
            self.data.push(data[i]);
            i = i + 1;
        }
        assert(data@.subrange(0, data.len() as int) == data@);
        Ok(())
    }

    /// Does nothing: the sink keeps nothing back.
    fn flush(&mut self) -> (result: Result<(), SinkError>) {
        Ok(())
    }
}

} // verus!
