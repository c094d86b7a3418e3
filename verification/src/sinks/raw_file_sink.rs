//! A sink that appends payloads to a file as they are, and flushes the file
//! when enough time has passed since the last flush.
use crate::clock::{Clock, NANOS_PER_SECOND};
use crate::error::{ErrorKind, IoError, IoErrorView, SinkError, SinkErrorView};
use crate::output::{
    appended_bytes,
    flush_count,
    lemma_appended_bytes_push,
    lemma_flush_count_push,
    outputs_view,
    Output,
    OutputView,
};
use crate::sink::Sink;
use vstd::prelude::*;

verus! {

/// Appends bytes to one file, unframed.
#[derive(Debug)]
pub struct RawFileSink {
    filename: String,
    /// Seconds that must pass between two flushes.
    flush_time: u32,
    clock: Clock,
    /// The clock's reading at the last flush.
    last_flush: u128,
    /// Requests that the host has not collected yet.
    staged: Vec<Output>,
}

/// What a [`RawFileSink`] stands for.
pub struct RawFileSinkView {
    /// The path of the file.
    pub filename: Seq<char>,
    /// The flush interval, in seconds.
    pub flush_time: nat,
    /// The reading of the sink's clock at the last flush, in nanoseconds.
    pub last_flush: nat,
    /// The requests staged for the host.
    pub staged: Seq<OutputView>,
}

impl RawFileSinkView {
    /// The time between the last flush and `now`; none where the clock reads
    /// less than it did then.
    pub open spec fn elapsed(self, now: nat) -> nat {
        if now >= self.last_flush {
            (now - self.last_flush) as nat
        } else {
            0
        }
    }

    /// A write at `now` is followed by a flush: the flush interval has passed
    /// since the last one.
    pub open spec fn flush_due(self, now: nat) -> bool {
        self.elapsed(now) >= self.flush_time * NANOS_PER_SECOND
    }

    /// The sink after a write of `data` when its clock reads `now`: the bytes
    /// are staged for the file, and a flush after them where one is due.
    pub open spec fn write_at(self, data: Seq<u8>, now: nat) -> RawFileSinkView {
        let appended = self.staged.push(
            OutputView::Append { filename: self.filename, bytes: data },
        );
        if self.flush_due(now) {
            RawFileSinkView {
                last_flush: now,
                staged: appended.push(OutputView::Flush { filename: self.filename }),
                ..self
            }
        } else {
            RawFileSinkView { staged: appended, ..self }
        }
    }

    /// The sink after a flush when its clock reads `now`.
    pub open spec fn flush_at(self, now: nat) -> RawFileSinkView {
        RawFileSinkView {
            last_flush: now,
            staged: self.staged.push(OutputView::Flush { filename: self.filename }),
            ..self
        }
    }

    /// The sink once the host has collected what was staged.
    pub open spec fn collected(self) -> RawFileSinkView {
        RawFileSinkView { staged: Seq::empty(), ..self }
    }
}

/// Of two writes that are less than the flush interval
/// apart, at most one is followed by a flush.
pub proof fn lemma_writes_within_interval_flush_once(
    sink: RawFileSinkView,
    first: Seq<u8>,
    second: Seq<u8>,
    t1: nat,
    t2: nat,
)
    requires
        t1 <= t2,
        t2 - t1 < sink.flush_time * NANOS_PER_SECOND,
    ensures
        sink.flush_due(t1) ==> !sink.write_at(first, t1).flush_due(t2),
        flush_count(sink.write_at(first, t1).write_at(second, t2).staged, sink.filename)
            <= flush_count(sink.staged, sink.filename) + 1,
{
    let name = sink.filename;
    let middle = sink.write_at(first, t1);
    let end = middle.write_at(second, t2);
    let append1 = OutputView::Append { filename: name, bytes: first };
    let append2 = OutputView::Append { filename: name, bytes: second };
    let flush = OutputView::Flush { filename: name };
    lemma_flush_count_push(sink.staged, append1, name);
    lemma_flush_count_push(sink.staged.push(append1), flush, name);
    lemma_flush_count_push(middle.staged, append2, name);
    lemma_flush_count_push(middle.staged.push(append2), flush, name);
}

/// A write made once the flush interval has passed
/// since the last flush is followed by a flush, which becomes the last flush;
/// a write made before that stages no flush.
pub proof fn lemma_write_flushes_when_due(sink: RawFileSinkView, data: Seq<u8>, now: nat)
    ensures
        now >= sink.last_flush + sink.flush_time * NANOS_PER_SECOND ==> {
            &&& sink.write_at(data, now).last_flush == now
            &&& flush_count(sink.write_at(data, now).staged, sink.filename) == flush_count(
                sink.staged,
                sink.filename,
            ) + 1
        },
        !sink.flush_due(now) ==> {
            &&& sink.write_at(data, now).last_flush == sink.last_flush
            &&& flush_count(sink.write_at(data, now).staged, sink.filename) == flush_count(
                sink.staged,
                sink.filename,
            )
        },
        sink.flush_time == 0 ==> sink.flush_due(now),
{
    let name = sink.filename;
    let append = OutputView::Append { filename: name, bytes: data };
    let flush = OutputView::Flush { filename: name };
    lemma_flush_count_push(sink.staged, append, name);
    lemma_flush_count_push(sink.staged.push(append), flush, name);
}

/// A write appends its bytes to the sink's file, and nothing else.
pub proof fn lemma_write_appends(sink: RawFileSinkView, data: Seq<u8>, now: nat)
    ensures
        appended_bytes(sink.write_at(data, now).staged, sink.filename) == appended_bytes(
            sink.staged,
            sink.filename,
        ) + data,
{
    let name = sink.filename;
    let append = OutputView::Append { filename: name, bytes: data };
    let flush = OutputView::Flush { filename: name };
    lemma_appended_bytes_push(sink.staged, append, name);
    lemma_appended_bytes_push(sink.staged.push(append), flush, name);
    assert(appended_bytes(sink.staged, name) + data + Seq::<u8>::empty() =~= appended_bytes(
        sink.staged,
        name,
    ) + data);
}

/// The error for a flush interval below zero.
pub open spec fn bad_flush_time() -> IoErrorView {
    IoErrorView { kind: ErrorKind::InvalidInput, message: "Bad flush time"@ }
}

/// Checks a flush interval: it must not be negative.
pub fn check_flush_time(flush_time_s: i32) -> (result: Result<(), IoError>)
    ensures
        match result {
            Ok(_) => flush_time_s >= 0,
            Err(error) => flush_time_s < 0 && error@ == bad_flush_time(),
        },
{
    if flush_time_s < 0 {
        Err(IoError::new(ErrorKind::InvalidInput, "Bad flush time"))
    } else {
        Ok(())
    }
}

impl View for RawFileSink {
    type V = RawFileSinkView;

    closed spec fn view(&self) -> RawFileSinkView {
        RawFileSinkView {
            filename: self.filename@,
            flush_time: self.flush_time as nat,
            last_flush: self.last_flush as nat,
            staged: outputs_view(self.staged@),
        }
    }
}

impl RawFileSink {
    /// A sink for the file `filename` that flushes when `flush_time_s` seconds
    /// have passed since the last flush; with 0, after every write. The request
    /// to create the file is staged. A negative interval is refused.
    pub fn new(filename: String, flush_time_s: i32) -> (made: Result<RawFileSink, IoError>)
        ensures
            match made {
                Ok(sink) => flush_time_s >= 0 && sink@ == (RawFileSinkView {
                    filename: filename@,
                    flush_time: flush_time_s as nat,
                    last_flush: 0,
                    staged: seq![OutputView::CreateFile { filename: filename@ }],
                }),
                Err(error) => flush_time_s < 0 && error@ == bad_flush_time(),
            },
    {
        match check_flush_time(flush_time_s) {
            Ok(_) => {},
            Err(error) => {
                return Err(error);
            },
        }
        let mut staged: Vec<Output> = Vec::new();
        staged.push(Output::CreateFile { filename: filename.clone() });
        assert(outputs_view(staged@) =~= seq![OutputView::CreateFile { filename: filename@ }]);
        Ok(
            RawFileSink {
                filename,
                flush_time: flush_time_s as u32,
                clock: Clock::new(),
                last_flush: 0,
                staged,
            },
        )
    }

    /// The path of the file.
    pub fn filename(&self) -> (filename: &String)
        ensures
            filename@ == self@.filename,
    {
        &self.filename
    }

    /// The flush interval, in seconds.
    pub fn flush_time(&self) -> (seconds: &u32)
        ensures
            *seconds == self@.flush_time,
    {
        &self.flush_time
    }

    /// The reading of the sink's clock at the last flush, in nanoseconds.
    pub fn last_flush(&self) -> (nanos: &u128)
        ensures
            *nanos == self@.last_flush,
    {
        &self.last_flush
    }

    /// The reading of the sink's clock.
    pub fn now(&self) -> u128 {
        self.clock.now()
    }

    /// Whether a write at `now` would be followed by a flush.
    pub fn flush_due(&self, now: u128) -> (due: bool)
        ensures
            due == self@.flush_due(now as nat),
    {
        let elapsed: u128 = if now >= self.last_flush {
            now - self.last_flush
        } else {
            0
        };
        elapsed >= (self.flush_time as u128) * NANOS_PER_SECOND
    }

    /// Writes `data` when the sink's clock reads `now`.
    pub fn write_at(&mut self, data: &Vec<u8>, now: u128)
        ensures
            final(self)@ == old(self)@.write_at(data@, now as nat),
    {
        let due = self.flush_due(now);
        self.staged.push(Output::Append { filename: self.filename.clone(), bytes: data.clone() });
        if due {
            self.staged.push(Output::Flush { filename: self.filename.clone() });
            self.last_flush = now;
        }
        assert(final(self)@.staged =~= old(self)@.write_at(data@, now as nat).staged);
    }

    /// Flushes when the sink's clock reads `now`.
    pub fn flush_at(&mut self, now: u128)
        ensures
            final(self)@ == old(self)@.flush_at(now as nat),
    {
        self.staged.push(Output::Flush { filename: self.filename.clone() });
        self.last_flush = now;
        assert(final(self)@.staged =~= old(self)@.flush_at(now as nat).staged);
    }

    /// Hands over the requests staged since the last call, oldest first.
    pub fn take_output(&mut self) -> (outputs: Vec<Output>)
        ensures
            outputs_view(outputs@) == old(self)@.staged,
            final(self)@ == old(self)@.collected(),
    {
        let mut outputs: Vec<Output> = Vec::new();
        std::mem::swap(&mut outputs, &mut self.staged);
        assert(outputs_view(self.staged@) =~= Seq::<OutputView>::empty());
        outputs
    }
}

impl Sink for RawFileSink {
    open spec fn write_error(&self, data: Seq<u8>) -> Option<SinkErrorView> {
        None
    }

    open spec fn written(&self, data: Seq<u8>, after: &Self) -> bool {
        exists|now: nat| after@ == #[trigger] self@.write_at(data, now)
    }

    open spec fn flushed(&self, after: &Self) -> bool {
        exists|now: nat| after@ == #[trigger] self@.flush_at(now)
    }

    /// Writes `data` at the time that the sink's clock shows.
    fn write(&mut self, data: &Vec<u8>) -> (result: Result<(), SinkError>) {
        let now = self.now();
        self.write_at(data, now);
        assert(final(self)@ == old(self)@.write_at(data@, now as nat));
        Ok(())
    }

    /// Flushes at the time that the sink's clock shows.
    fn flush(&mut self) -> (result: Result<(), SinkError>) {
        let now = self.now();
        self.flush_at(now);
        assert(final(self)@ == old(self)@.flush_at(now as nat));
        Ok(())
    }
}

} // verus!
