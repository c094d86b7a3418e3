//! A sink that echoes each payload, as text, on the console.
use crate::error::{ErrorKind, IoError, IoErrorView, SinkError, SinkErrorView};
use crate::output::{outputs_view, Output, OutputView};
use crate::sink::Sink;
use crate::text::utf8_text;
use vstd::prelude::*;
use vstd::string::*;
use vstd::utf8::{decode_utf8, valid_utf8};

verus! {

/// The error for a payload that is not text.
pub open spec fn not_text() -> IoErrorView {
    IoErrorView { kind: ErrorKind::InvalidData, message: "Failed to write to the console"@ }
}

/// The line that the console shows for a payload that reads as `text`.
pub open spec fn console_line(text: Seq<char>) -> Seq<char> {
    "Writing to console: "@ + text
}

/// Echoes payloads on the console. A payload must be valid UTF-8.
#[derive(Debug)]
pub struct ConsoleSink {
    /// Requests that the host has not collected yet.
    staged: Vec<Output>,
}

/// What a [`ConsoleSink`] stands for.
pub struct ConsoleSinkView {
    /// The requests staged for the host.
    pub staged: Seq<OutputView>,
}

impl ConsoleSinkView {
    /// The sink after a write of `data`: a line is staged where the payload is
    /// text, and nothing changes where it is not.
    pub open spec fn write(self, data: Seq<u8>) -> ConsoleSinkView {
        if valid_utf8(data) {
            ConsoleSinkView {
                staged: self.staged.push(
                    OutputView::PrintLine { line: console_line(decode_utf8(data)) },
                ),
            }
        } else {
            self
        }
    }
}

/// The error with which the console refuses `data`, if it does.
pub open spec fn console_write_error(data: Seq<u8>) -> Option<SinkErrorView> {
    if valid_utf8(data) {
        None
    } else {
        Some(SinkErrorView::IoError(not_text()))
    }
}

impl View for ConsoleSink {
    type V = ConsoleSinkView;

    closed spec fn view(&self) -> ConsoleSinkView {
        ConsoleSinkView { staged: outputs_view(self.staged@) }
    }
}

impl ConsoleSink {
    /// A console sink with nothing staged.
    pub fn new() -> (sink: ConsoleSink)
        ensures
            sink@ == (ConsoleSinkView { staged: Seq::empty() }),
    {
        let sink = ConsoleSink { staged: Vec::new() };
        assert(sink@.staged =~= Seq::empty());
        sink
    }

    /// Hands over the requests staged since the last call, oldest first.
    pub fn take_output(&mut self) -> (outputs: Vec<Output>)
        ensures
            outputs_view(outputs@) == old(self)@.staged,
            final(self)@ == (ConsoleSinkView { staged: Seq::empty() }),
    {
        let mut outputs: Vec<Output> = Vec::new();
        std::mem::swap(&mut outputs, &mut self.staged);
        assert(outputs_view(self.staged@) =~= Seq::<OutputView>::empty());
        outputs
    }
}

impl Sink for ConsoleSink {
    open spec fn write_error(&self, data: Seq<u8>) -> Option<SinkErrorView> {
        console_write_error(data)
    }

    open spec fn written(&self, data: Seq<u8>, after: &Self) -> bool {
        after@ == self@.write(data)
    }

    open spec fn flushed(&self, after: &Self) -> bool {
        after@ == self@
    }

    /// Stages the line for `data`; fails where `data` is not text.
    fn write(&mut self, data: &Vec<u8>) -> (result: Result<(), SinkError>) {
        match utf8_text(data) {
            Some(text) => {
                let mut line = String::from_str("Writing to console: ");
                line.append(text.as_str());
                self.staged.push(Output::PrintLine { line });
                assert(final(self)@.staged =~= old(self)@.write(data@).staged);
                Ok(())
            },
            None => Err(
                SinkError::IoError(
                    IoError::new(ErrorKind::InvalidData, "Failed to write to the console"),
                ),
            ),
        }
    }

    /// Does nothing: the console keeps nothing back.
    fn flush(&mut self) -> (result: Result<(), SinkError>) {
        Ok(())
    }
}

} // verus!
