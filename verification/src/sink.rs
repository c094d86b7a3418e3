//! What every sink can do, and the closed set of sinks that a connection holds.
use crate::error::{SinkError, SinkErrorView};
use crate::framing::frame;
use crate::output::{outputs_view, Output, OutputView};
use crate::sinks::compressed_file_sink::{
    packed_write_error,
    CompressedFileSink,
    CompressedFileSinkView,
};
use crate::sinks::console_sink::{console_write_error, ConsoleSink, ConsoleSinkView};
use crate::sinks::file_sink::FileSink;
use crate::sinks::message_counter::{counted, MessageCounter, MessageCounterView};
use crate::sinks::mock_sink::{MockSink, MockSinkView};
use crate::sinks::prometheus_sink::{PrometheusSink, PrometheusSinkView};
use crate::sinks::raw_file_sink::RawFileSinkView;
use vstd::prelude::*;

verus! {

/// A consumer of message payloads.
///
/// A sink treats a payload as opaque bytes. What a write does to a sink is
/// given by three spec functions, so that code that holds any sink
/// can say what one write did to it.
pub trait Sink: Sync + Send {
    /// The error with which a write of `data` fails on this sink; `None` where
    /// the write succeeds.
    spec fn write_error(&self, data: Seq<u8>) -> Option<SinkErrorView>;

    /// `after` is this sink after exactly one write of `data`.
    spec fn written(&self, data: Seq<u8>, after: &Self) -> bool;

    /// `after` is this sink after one flush.
    spec fn flushed(&self, after: &Self) -> bool;

    /// Hands one payload to the sink.
    fn write(&mut self, data: &Vec<u8>) -> (result: Result<(), SinkError>)
        ensures
            old(self).written(data@, final(self)),
            match result {
                Ok(_) => old(self).write_error(data@) is None,
                Err(error) => old(self).write_error(data@) == Some(error@),
            },
    ;

    /// Asks the sink to make durable what it was handed so far.
    fn flush(&mut self) -> (result: Result<(), SinkError>)
        ensures
            result is Ok,
            old(self).flushed(final(self)),
    ;
}

/// The sinks that a connection can hold.
#[derive(Debug)]
pub enum SinksEnum {
    ConsoleSink(ConsoleSink),
    FileSink(FileSink),
    CompressedFileSink(CompressedFileSink),
    MessageCounter(MessageCounter),
    PrometheusSink(PrometheusSink),
    MockSink(MockSink),
}

/// What a sink stands for. A sink that counts in a metrics registry stands
/// for what it has counted; its counters live in the registry.
pub enum SinkView {
    ConsoleSink(ConsoleSinkView),
    FileSink(RawFileSinkView),
    CompressedFileSink(CompressedFileSinkView),
    MessageCounter(MessageCounterView),
    PrometheusSink(PrometheusSinkView),
    MockSink(MockSinkView),
}

impl SinkView {
    /// The error with which a write of `data` fails on this sink; `None` where
    /// the write succeeds. A console refuses what is not text, and a
    /// compressing sink what it cannot compress; no other sink refuses
    /// anything.
    pub open spec fn write_error(self, data: Seq<u8>) -> Option<SinkErrorView> {
        match self {
            SinkView::ConsoleSink(_) => console_write_error(data),
            SinkView::CompressedFileSink(sink) => packed_write_error(sink.packed(data)),
            _ => None,
        }
    }

    /// `after` is this sink after exactly one write of `data`. For a sink with
    /// a clock this holds of some reading of that clock.
    pub open spec fn written(self, data: Seq<u8>, after: SinkView) -> bool {
        match self {
            SinkView::ConsoleSink(before) => after == SinkView::ConsoleSink(before.write(data)),
            SinkView::FileSink(before) => exists|now: nat|
                after == SinkView::FileSink(#[trigger] before.write_at(frame(data), now)),
            SinkView::CompressedFileSink(before) => exists|now: nat|
                after == SinkView::CompressedFileSink(
                    #[trigger] before.write_packed_at(before.packed(data), now),
                ),
            SinkView::MessageCounter(before) => after == SinkView::MessageCounter(
                MessageCounterView { message_count: counted(before.message_count) },
            ),
            SinkView::PrometheusSink(before) => after == SinkView::PrometheusSink(
                before.write(data),
            ),
            SinkView::MockSink(before) => after == SinkView::MockSink(
                MockSinkView { data: before.data + data },
            ),
        }
    }

    /// `after` is this sink after one flush. For a sink with a clock this
    /// holds of some reading of that clock; a sink without a file is left as
    /// it was.
    pub open spec fn flushed(self, after: SinkView) -> bool {
        match self {
            SinkView::FileSink(before) => exists|now: nat|
                after == SinkView::FileSink(#[trigger] before.flush_at(now)),
            SinkView::CompressedFileSink(before) => exists|now: nat|
                after == SinkView::CompressedFileSink(#[trigger] before.flush_at(now)),
            _ => after == self,
        }
    }

    /// The requests that this sink has staged for the host.
    pub open spec fn staged(self) -> Seq<OutputView> {
        match self {
            SinkView::ConsoleSink(sink) => sink.staged,
            SinkView::FileSink(sink) => sink.staged,
            SinkView::CompressedFileSink(sink) => sink.file.staged,
            _ => Seq::empty(),
        }
    }

    /// This sink once the host has collected what was staged.
    pub open spec fn collected(self) -> SinkView {
        match self {
            SinkView::ConsoleSink(sink) => SinkView::ConsoleSink(
                ConsoleSinkView { staged: Seq::empty() },
            ),
            SinkView::FileSink(sink) => SinkView::FileSink(sink.collected()),
            SinkView::CompressedFileSink(sink) => SinkView::CompressedFileSink(sink.collected()),
            _ => self,
        }
    }
}

impl View for SinksEnum {
    type V = SinkView;

    open spec fn view(&self) -> SinkView {
        match self {
            SinksEnum::ConsoleSink(sink) => SinkView::ConsoleSink(sink@),
            SinksEnum::FileSink(sink) => SinkView::FileSink(sink@),
            SinksEnum::CompressedFileSink(sink) => SinkView::CompressedFileSink(sink@),
            SinksEnum::MessageCounter(sink) => SinkView::MessageCounter(sink@),
            SinksEnum::PrometheusSink(sink) => SinkView::PrometheusSink(sink@),
            SinksEnum::MockSink(sink) => SinkView::MockSink(sink@),
        }
    }
}

impl SinksEnum {
    /// Hands over the requests that the sink has staged since the last call,
    /// oldest first. A sink without a file or console has none.
    pub fn take_output(&mut self) -> (outputs: Vec<Output>)
        ensures
            outputs_view(outputs@) == old(self)@.staged(),
            final(self)@ == old(self)@.collected(),
    {
        match self {
            SinksEnum::ConsoleSink(sink) => {
                let outputs = sink.take_output();
                assert(sink@.staged =~= Seq::empty());
                outputs
            },
            SinksEnum::FileSink(sink) => sink.take_output(),
            SinksEnum::CompressedFileSink(sink) => sink.take_output(),
            _ => {
                let outputs: Vec<Output> = Vec::new();
                assert(outputs_view(outputs@) =~= Seq::<OutputView>::empty());
                outputs
            },
        }
    }
}

impl Sink for SinksEnum {
    open spec fn write_error(&self, data: Seq<u8>) -> Option<SinkErrorView> {
        self@.write_error(data)
    }

    open spec fn written(&self, data: Seq<u8>, after: &Self) -> bool {
        self@.written(data, after@)
    }

    open spec fn flushed(&self, after: &Self) -> bool {
        self@.flushed(after@)
    }

    /// Hands `data` to the sink that this is.
    fn write(&mut self, data: &Vec<u8>) -> (result: Result<(), SinkError>) {
        let ghost mut when: nat = 0;
        let result = match self {
            SinksEnum::ConsoleSink(sink) => sink.write(data),
            SinksEnum::FileSink(sink) => {
                let ghost before = sink@;
                let result = sink.write(data);
                proof {
                    when = choose|now: nat| sink@ == before.write_at(frame(data@), now);
                }
                result
            },
            SinksEnum::CompressedFileSink(sink) => {
                let ghost before = sink@;
                let result = sink.write(data);
                proof {
                    when = choose|now: nat|
                        sink@ == before.write_packed_at(before.packed(data@), now);
                }
                result
            },
            SinksEnum::MessageCounter(sink) => sink.write(data),
            SinksEnum::PrometheusSink(sink) => sink.write(data),
            SinksEnum::MockSink(sink) => sink.write(data),
        };
        proof {
            match old(self)@ {
                SinkView::FileSink(before) => {
                    assert(self@ == SinkView::FileSink(before.write_at(frame(data@), when)));
                },
                SinkView::CompressedFileSink(before) => {
                    assert(self@ == SinkView::CompressedFileSink(
                        before.write_packed_at(before.packed(data@), when),
                    ));
                },
                _ => {},
            }
        }
        result
    }

    /// Flushes the sink that this is.
    fn flush(&mut self) -> (result: Result<(), SinkError>) {
        let ghost mut when: nat = 0;
        let result = match self {
            SinksEnum::ConsoleSink(sink) => sink.flush(),
            SinksEnum::FileSink(sink) => {
                let ghost before = sink@;
                let result = sink.flush();
                proof {
                    when = choose|now: nat| sink@ == before.flush_at(now);
                }
                result
            },
            SinksEnum::CompressedFileSink(sink) => {
                let ghost before = sink@;
                let result = sink.flush();
                proof {
                    when = choose|now: nat| sink@ == before.flush_at(now);
                }
                result
            },
            SinksEnum::MessageCounter(sink) => sink.flush(),
            SinksEnum::PrometheusSink(sink) => sink.flush(),
            SinksEnum::MockSink(sink) => sink.flush(),
        };
        proof {
            match old(self)@ {
                SinkView::FileSink(before) => {
                    assert(self@ == SinkView::FileSink(before.flush_at(when)));
                },
                SinkView::CompressedFileSink(before) => {
                    assert(self@ == SinkView::CompressedFileSink(before.flush_at(when)));
                },
                _ => {},
            }
        }
        result
    }
}

} // verus!
