//! A sink that persists each payload as one length-prefixed record.
use crate::error::{IoError, SinkError, SinkErrorView};
use crate::framing::{
    frame,
    frame_record,
    frames,
    lemma_frames_push,
    lemma_records_of_frames,
    records,
};
use crate::output::{appended_bytes, outputs_view, Output, OutputView};
use crate::sink::Sink;
use crate::sinks::raw_file_sink::{
    bad_flush_time,
    lemma_write_appends,
    RawFileSink,
    RawFileSinkView,
};
use vstd::prelude::*;

verus! {

/// Appends records to one file: for each payload its length as eight
/// big-endian bytes, then the payload.
#[derive(Debug)]
pub struct FileSink {
    file_handle: RawFileSink,
}

/// What a sink writes reads back: where the bytes appended to a sink's file
/// so far are the records of `payloads`, a write of `data` makes them the
/// records of `payloads` and `data`, and reading record after record gives
/// exactly those payloads back.
pub proof fn lemma_written_payload_reads_back(
    sink: RawFileSinkView,
    payloads: Seq<Seq<u8>>,
    data: Seq<u8>,
    now: nat,
)
    requires
        appended_bytes(sink.staged, sink.filename) == frames(payloads),
        forall|i: int| 0 <= i < payloads.len() ==> (#[trigger] payloads[i]).len() <= u64::MAX,
        data.len() <= u64::MAX,
    ensures
        appended_bytes(sink.write_at(frame(data), now).staged, sink.filename) == frames(
            payloads.push(data),
        ),
        records(frames(payloads.push(data))) == payloads.push(data),
{
    lemma_write_appends(sink, frame(data), now);
    lemma_frames_push(payloads, data);
    lemma_records_of_frames(payloads.push(data));
}

impl View for FileSink {
    type V = RawFileSinkView;

    closed spec fn view(&self) -> RawFileSinkView {
        self.file_handle@
    }
}

impl FileSink {
    /// A sink for the file `filename` that flushes when `flush_time_s` seconds
    /// have passed since the last flush; with 0, after every write. The request
    /// to create the file is staged. A negative interval is refused.
    pub fn new(filename: String, flush_time_s: i32) -> (made: Result<FileSink, IoError>)
        ensures
            match made {
                Ok(sink) => flush_time_s >= 0 && sink@ == (RawFileSinkView {
                    filename: filename@,
                    flush_time: flush_time_s as nat,
                    last_flush: 0,
                    staged: seq![OutputView::CreateFile { filename: filename@ }],
                }),
                Err(error) => flush_time_s < 0 && error@ == bad_flush_time(),
            },
    {
        match RawFileSink::new(filename, flush_time_s) {
            Ok(file_handle) => Ok(FileSink { file_handle }),
            Err(error) => Err(error),
        }
    }

    /// The path of the file.
    pub fn filename(&self) -> (filename: &String)
        ensures
            filename@ == self@.filename,
    {
        self.file_handle.filename()
    }

    /// Writes the record of `data` when the sink's clock reads `now`.
    pub fn write_at(&mut self, data: &Vec<u8>, now: u128)
        ensures
            final(self)@ == old(self)@.write_at(frame(data@), now as nat),
    {
        let record = frame_record(data);
        self.file_handle.write_at(&record, now);
    }

    /// Flushes when the sink's clock reads `now`.
    pub fn flush_at(&mut self, now: u128)
        ensures
            final(self)@ == old(self)@.flush_at(now as nat),
    {
        self.file_handle.flush_at(now);
    }

    /// Hands over the requests staged since the last call, oldest first.
    pub fn take_output(&mut self) -> (outputs: Vec<Output>)
        ensures
            outputs_view(outputs@) == old(self)@.staged,
            final(self)@ == old(self)@.collected(),
    {
        self.file_handle.take_output()
    }

    /// The reading of the sink's clock.
    pub fn now(&self) -> u128 {
        self.file_handle.now()
    }
}

impl Sink for FileSink {
    open spec fn write_error(&self, data: Seq<u8>) -> Option<SinkErrorView> {
        None
    }

    open spec fn written(&self, data: Seq<u8>, after: &Self) -> bool {
        exists|now: nat| after@ == #[trigger] self@.write_at(frame(data), now)
    }

    open spec fn flushed(&self, after: &Self) -> bool {
        exists|now: nat| after@ == #[trigger] self@.flush_at(now)
    }

    /// Writes the record of `data` at the time that the sink's clock shows.
    fn write(&mut self, data: &Vec<u8>) -> (result: Result<(), SinkError>) {
        let now = self.now();
        self.write_at(data, now);
        assert(final(self)@ == old(self)@.write_at(frame(data@), now as nat));
        Ok(())
    }

    /// Flushes at the time that the sink's clock shows.
    fn flush(&mut self) -> (result: Result<(), SinkError>) {
        let now = self.now();
        self.flush_at(now);
        assert(final(self)@ == old(self)@.flush_at(now as nat));
        Ok(())
    }
}

} // verus!
