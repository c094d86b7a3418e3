//! A sink that compresses each payload by itself and persists the result as
//! one length-prefixed record, so that any record can be decompressed without
//! the records before it.
use crate::error::{ErrorKind, IoError, IoErrorView, SinkError, SinkErrorView};
use crate::framing::frame;
use crate::output::{outputs_view, Output, OutputView};
use crate::sink::Sink;
use crate::sinks::file_sink::FileSink;
use crate::sinks::raw_file_sink::{bad_flush_time, RawFileSinkView};
use flate2::write::GzEncoder;
use flate2::Compression;
use std::io::Write;
use vstd::prelude::*;

verus! {

/// The lowest compression level that a sink accepts.
pub const MIN_COMPRESSION_LEVEL: u32 = 1;

/// The highest compression level that a sink accepts.
pub const MAX_COMPRESSION_LEVEL: u32 = 9;

/// The gzip stream that the compressor makes of `data` at `level`; `None` where
/// it fails.
pub uninterp spec fn gzip_of(data: Seq<u8>, level: u32) -> Option<Seq<u8>>;

/// The level at which the compressor works fastest.
///
/// Calls `flate2::Compression::fast` and reads its `level`. The contract
/// claims what the source shows: the level is 1.
#[verifier::external_body]
fn fastest_level() -> (level: u32)
    ensures
        level == MIN_COMPRESSION_LEVEL,
{
    Compression::fast().level()
}

/// The level at which the compressor compresses best.
///
/// Calls `flate2::Compression::best` and reads its `level`. The contract
/// claims what the source shows: the level is 9.
#[verifier::external_body]
fn best_level() -> (level: u32)
    ensures
        level == MAX_COMPRESSION_LEVEL,
{
    Compression::best().level()
}

/// Compresses `data` in one go into a gzip stream of its own.
///
/// Makes a `flate2::write::GzEncoder` over an empty vector with
/// `Compression::new(level)`, writes `data` to it with `write_all` and takes
/// the vector back with `finish`. The stream depends on `data` and `level`
/// alone; the contract gives it the name `gzip_of` and claims no more. Levels
/// above 9 are left out: the compressor's scale ends there.
#[verifier::external_body]
fn gzip(data: &Vec<u8>, level: u32) -> (packed: Option<Vec<u8>>)
    requires
        level <= MAX_COMPRESSION_LEVEL,
    ensures
        match packed {
            Some(bytes) => gzip_of(data@, level) == Some(bytes@),
            None => gzip_of(data@, level) is None,
        },
{
    let mut encoder = GzEncoder::new(Vec::new(), Compression::new(level));
    encoder.write_all(data).ok()?;
    encoder.finish().ok()
}

/// The error for a compression level outside the accepted range.
pub open spec fn bad_compression_level() -> IoErrorView {
    IoErrorView { kind: ErrorKind::NotFound, message: "Bad compression value"@ }
}

/// The error for a payload that could not be compressed.
pub open spec fn compression_failed() -> IoErrorView {
    IoErrorView { kind: ErrorKind::Other, message: "Failed to compress data"@ }
}

/// `level` lies in the range of levels that a sink accepts, ends included.
pub open spec fn valid_compression_level(level: int) -> bool {
    MIN_COMPRESSION_LEVEL <= level <= MAX_COMPRESSION_LEVEL
}

/// Persists gzip-compressed payloads as records of one file.
#[derive(Debug)]
pub struct CompressedFileSink {
    file_sink: FileSink,
    compression_level: i32,
}

/// What a [`CompressedFileSink`] stands for.
pub struct CompressedFileSinkView {
    /// The file sink that takes the compressed payloads.
    pub file: RawFileSinkView,
    /// The level at which payloads are compressed.
    pub compression_level: int,
}

impl CompressedFileSinkView {
    /// What the compressor makes of `data` for this sink.
    pub open spec fn packed(self, data: Seq<u8>) -> Option<Seq<u8>> {
        if valid_compression_level(self.compression_level) {
            gzip_of(data, self.compression_level as u32)
        } else {
            None
        }
    }

    /// The sink after it was handed the compressor's result `packed` when its
    /// clock read `now`: a compressed payload is written as one record, and a
    /// failed compression leaves the sink as it was.
    pub open spec fn write_packed_at(self, packed: Option<Seq<u8>>, now: nat) -> Self {
        match packed {
            Some(bytes) => CompressedFileSinkView {
                file: self.file.write_at(frame(bytes), now),
                ..self
            },
            None => self,
        }
    }

    /// The sink after a flush when its clock reads `now`.
    pub open spec fn flush_at(self, now: nat) -> Self {
        CompressedFileSinkView { file: self.file.flush_at(now), ..self }
    }

    /// The sink once the host has collected what was staged.
    pub open spec fn collected(self) -> Self {
        CompressedFileSinkView { file: self.file.collected(), ..self }
    }
}

/// The result of a write for which the compressor gave `packed`.
pub open spec fn packed_write_error(packed: Option<Seq<u8>>) -> Option<SinkErrorView> {
    match packed {
        Some(_) => None,
        None => Some(SinkErrorView::IoError(compression_failed())),
    }
}

/// Checks a compression level: it must lie between the level at which the
/// compressor works fastest and the one at which it compresses best, ends
/// included.
pub fn check_compression_level(compression_level: i32) -> (result: Result<(), IoError>)
    ensures
        match result {
            Ok(_) => valid_compression_level(compression_level as int),
            Err(error) => !valid_compression_level(compression_level as int) && error@
                == bad_compression_level(),
        },
{
    if compression_level < 0 || (compression_level as u32) < fastest_level() || (
    compression_level as u32) > best_level() {
        Err(IoError::new(ErrorKind::NotFound, "Bad compression value"))
    } else {
        Ok(())
    }
}

impl View for CompressedFileSink {
    type V = CompressedFileSinkView;

    closed spec fn view(&self) -> CompressedFileSinkView {
        CompressedFileSinkView {
            file: self.file_sink@,
            compression_level: self.compression_level as int,
        }
    }
}

impl CompressedFileSink {
    /// A sink for the file `filename` that compresses at `compression_level`
    /// and flushes when `flush_time_s` seconds have passed since the last
    /// flush. A level outside the accepted range is refused, and so is a
    /// negative interval; the level is looked at first.
    pub fn new(filename: String, flush_time_s: i32, compression_level: i32) -> (made: Result<
        CompressedFileSink,
        IoError,
    >)
        ensures
            match made {
                Ok(sink) => {
                    &&& valid_compression_level(compression_level as int)
                    &&& flush_time_s >= 0
                    &&& sink@ == (CompressedFileSinkView {
                        file: RawFileSinkView {
                            filename: filename@,
                            flush_time: flush_time_s as nat,
                            last_flush: 0,
                            staged: seq![OutputView::CreateFile { filename: filename@ }],
                        },
                        compression_level: compression_level as int,
                    })
                },
                Err(error) => if !valid_compression_level(compression_level as int) {
                    error@ == bad_compression_level()
                } else {
                    flush_time_s < 0 && error@ == bad_flush_time()
                },
            },
    {
        match check_compression_level(compression_level) {
            Ok(_) => {},
            Err(error) => {
                return Err(error);
            },
        }
        match FileSink::new(filename, flush_time_s) {
            Ok(file_sink) => Ok(CompressedFileSink { file_sink, compression_level }),
            Err(error) => Err(error),
        }
    }

    /// The path of the file.
    pub fn filename(&self) -> (filename: &String)
        ensures
            filename@ == self@.file.filename,
    {
        self.file_sink.filename()
    }

    /// The level at which payloads are compressed.
    pub fn compression_level(&self) -> (level: &i32)
        ensures
            *level == self@.compression_level,
    {
        &self.compression_level
    }

    /// Compresses `data` as this sink does; `None` where that fails.
    pub fn compress(&self, data: &Vec<u8>) -> (packed: Option<Vec<u8>>)
        ensures
            match packed {
                Some(bytes) => self@.packed(data@) == Some(bytes@),
                None => self@.packed(data@) is None,
            },
    {
        if self.compression_level < 0 || (self.compression_level as u32) < MIN_COMPRESSION_LEVEL
            || (self.compression_level as u32) > MAX_COMPRESSION_LEVEL {
            return None;
        }
        gzip(data, self.compression_level as u32)
    }

    /// Takes what the compressor made of a payload, when the sink's clock reads
    /// `now`: a compressed payload is written as one record; a failed
    /// compression is reported and changes nothing.
    pub fn write_packed_at(&mut self, packed: Option<Vec<u8>>, now: u128) -> (result: Result<
        (),
        SinkError,
    >)
        ensures
            final(self)@ == old(self)@.write_packed_at(
                match packed {
                    Some(bytes) => Some(bytes@),
                    None => None,
                },
                now as nat,
            ),
            match result {
                Ok(_) => packed is Some,
                Err(error) => packed is None && error@ == SinkErrorView::IoError(
                    compression_failed(),
                ),
            },
    {
        match packed {
            Some(bytes) => {
                self.file_sink.write_at(&bytes, now);
                Ok(())
            },
            None => Err(
                SinkError::IoError(IoError::new(ErrorKind::Other, "Failed to compress data")),
            ),
        }
    }

    /// Compresses `data` and writes the result as one record, when the sink's
    /// clock reads `now`.
    pub fn write_at(&mut self, data: &Vec<u8>, now: u128) -> (result: Result<(), SinkError>)
        ensures
            final(self)@ == old(self)@.write_packed_at(old(self)@.packed(data@), now as nat),
            match result {
                Ok(_) => packed_write_error(old(self)@.packed(data@)) is None,
                Err(error) => packed_write_error(old(self)@.packed(data@)) == Some(error@),
            },
    {
        let packed = self.compress(data);
        self.write_packed_at(packed, now)
    }

    /// Flushes when the sink's clock reads `now`.
    pub fn flush_at(&mut self, now: u128)
        ensures
            final(self)@ == old(self)@.flush_at(now as nat),
    {
        self.file_sink.flush_at(now);
    }

    /// Hands over the requests staged since the last call, oldest first.
    pub fn take_output(&mut self) -> (outputs: Vec<Output>)
        ensures
            outputs_view(outputs@) == old(self)@.file.staged,
            final(self)@ == old(self)@.collected(),
    {
        self.file_sink.take_output()
    }

    /// The reading of the sink's clock.
    pub fn now(&self) -> u128 {
        self.file_sink.now()
    }
}

impl Sink for CompressedFileSink {
    open spec fn write_error(&self, data: Seq<u8>) -> Option<SinkErrorView> {
        packed_write_error(self@.packed(data))
    }

    open spec fn written(&self, data: Seq<u8>, after: &Self) -> bool {
        exists|now: nat| after@ == #[trigger] self@.write_packed_at(self@.packed(data), now)
    }

    open spec fn flushed(&self, after: &Self) -> bool {
        exists|now: nat| after@ == #[trigger] self@.flush_at(now)
    }

    /// Compresses `data` and writes the result as one record, at the time that
    /// the sink's clock shows.
    fn write(&mut self, data: &Vec<u8>) -> (result: Result<(), SinkError>) {
        let now = self.now();
        let result = self.write_at(data, now);
        assert(final(self)@ == old(self)@.write_packed_at(old(self)@.packed(data@), now as nat));
        result
    }

    /// Flushes at the time that the sink's clock shows.
    fn flush(&mut self) -> (result: Result<(), SinkError>) {
        let now = self.now();
        self.flush_at(now);
        assert(final(self)@ == old(self)@.flush_at(now as nat));
        Ok(())
    }
}

} // verus!
