use byteorder::{BigEndian, ReadBytesExt};
use message_recorder::framing::{frame_record, read_record};
use message_recorder::output::Output;
use message_recorder::sink::Sink;
use message_recorder::sinks::file_sink::FileSink;
use message_recorder::sinks::raw_file_sink::RawFileSink;
use std::collections::HashMap;
use std::io::{ErrorKind, Read, Seek, SeekFrom, Write};
use std::path::Path;
use tempfile::NamedTempFile;

const SECOND: u128 = 1_000_000_000;

trait Handle: Read + Write + Seek {}

impl<T: Read + Write + Seek> Handle for T {}

/// Plays the host program: carries out what sinks have staged, on real files.
struct Host {
    files: HashMap<String, Box<dyn Handle>>,
}

impl Host {
    fn new() -> Host {
        Host { files: HashMap::new() }
    }

    fn carry_out(&mut self, outputs: Vec<Output>) -> std::io::Result<()> {
        for output in outputs {
            match output {
                Output::CreateFile { filename } => {
                    let path = Path::new(&filename);
                    let parent = path.parent().unwrap_or(Path::new("."));
                    let file = tempfile::Builder::new().tempfile_in(parent)?;
                    let file = file.persist(path).map_err(|error| error.error)?;
                    file.set_len(0)?;
                    self.files.insert(filename, Box::new(file));
                }
                Output::Append { filename, bytes } => {
                    let file = self.files.get_mut(&filename).ok_or(ErrorKind::NotFound)?;
                    file.seek(SeekFrom::End(0))?;
                    file.write_all(&bytes)?;
                }
                Output::Flush { filename } => {
                    self.files.get_mut(&filename).ok_or(ErrorKind::NotFound)?.flush()?;
                }
                Output::PrintLine { line } => println!("{}", line),
            }
        }
        Ok(())
    }

    fn contents(&mut self, filename: &str) -> Vec<u8> {
        let file = self.files.get_mut(filename).unwrap();
        file.seek(SeekFrom::Start(0)).unwrap();
        let mut contents = Vec::new();
        file.read_to_end(&mut contents).unwrap();
        contents
    }
}

fn flushes(outputs: &[Output]) -> usize {
    outputs.iter().filter(|output| matches!(output, Output::Flush { .. })).count()
}

#[test]
fn test_file_sink_write() {
    let temp_file = NamedTempFile::new().expect("Failed to create temp file");
    let temp_path = temp_file.path().to_str().unwrap().to_string();
    let mut host = Host::new();

    let mut file_sink = FileSink::new(temp_path.clone(), 0).expect("Failed to create FileSink");
    host.carry_out(file_sink.take_output()).expect("Failed to create FileSink");

    let data = b"Hello, FileSink!".to_vec();

    file_sink.write(&data).expect("Failed to write data");
    host.carry_out(file_sink.take_output()).expect("Failed to write data");

    let mut file = std::io::Cursor::new(host.contents(&temp_path));

    // Read the first 8 bytes to get the data size
    let data_size = file
        .read_u64::<BigEndian>()
        .expect("Failed to read data size");

    // Read the data
    let mut data_buf = vec![0u8; data_size as usize];
    file.read_exact(&mut data_buf).expect("Failed to read data");

    assert_eq!(data_buf, data);
    let mut rest = Vec::new();
    file.read_to_end(&mut rest).unwrap();
    assert!(rest.is_empty());
}

#[test]
fn frame_is_length_then_payload() {
    assert_eq!(frame_record(&vec![]), vec![0, 0, 0, 0, 0, 0, 0, 0]);
    assert_eq!(frame_record(&vec![7]), vec![0, 0, 0, 0, 0, 0, 0, 1, 7]);
    let payload = vec![0xabu8; 258];
    let record = frame_record(&payload);
    assert_eq!(record.len(), 8 + 258);
    assert_eq!(&record[..8], &[0, 0, 0, 0, 0, 0, 1, 2]);
    assert_eq!(&record[8..], &payload[..]);
}

#[test]
fn frame_length_is_what_byteorder_reads() {
    let payload = vec![1u8; 70_000];
    let record = frame_record(&payload);
    let mut cursor = std::io::Cursor::new(record);
    assert_eq!(cursor.read_u64::<BigEndian>().unwrap(), 70_000);
}

#[test]
fn framing_round_trip() {
    for payload in [vec![], vec![0u8], b"Hello, FileSink!".to_vec(), vec![0xffu8; 1000]] {
        let record = frame_record(&payload);
        assert_eq!(read_record(&record), Some((payload.clone(), record.len())));
        let mut followed = record.clone();
        followed.extend_from_slice(&[9, 9, 9]);
        assert_eq!(read_record(&followed), Some((payload, record.len())));
    }
}

#[test]
fn records_are_read_back_one_after_the_other() {
    let payloads = vec![b"first".to_vec(), vec![], vec![0, 0, 0, 0, 0, 0, 0, 3], b"last".to_vec()];
    let mut file = Vec::new();
    for payload in &payloads {
        file.extend_from_slice(&frame_record(payload));
    }
    let mut read = Vec::new();
    let mut at = 0;
    while let Some((payload, used)) = read_record(&file[at..]) {
        read.push(payload);
        at += used;
    }
    assert_eq!(at, file.len());
    assert_eq!(read, payloads);
}

#[test]
fn truncated_record_is_not_read() {
    assert_eq!(read_record(&[]), None);
    assert_eq!(read_record(&[0, 0, 0, 0, 0, 0, 0]), None);
    assert_eq!(read_record(&[0, 0, 0, 0, 0, 0, 0, 2, 1]), None);
    assert_eq!(read_record(&[0xff, 0xff, 0xff, 0xff, 0xff, 0xff, 0xff, 0xff, 1]), None);
    assert_eq!(read_record(&[0, 0, 0, 0, 0, 0, 0, 2, 1, 2]), Some((vec![1, 2], 10)));
}

#[test]
fn new_file_sink_asks_for_its_file() {
    let mut sink = FileSink::new("some/file.bin".to_string(), 3).unwrap();
    assert_eq!(sink.filename(), "some/file.bin");
    assert_eq!(
        sink.take_output(),
        vec![Output::CreateFile { filename: "some/file.bin".to_string() }]
    );
    assert!(sink.take_output().is_empty());
}

#[test]
fn negative_flush_time_is_refused() {
    let error = FileSink::new("file.bin".to_string(), -1).unwrap_err();
    assert_eq!(error.kind(), message_recorder::error::ErrorKind::InvalidInput);
    assert_eq!(error.to_string(), "Bad flush time");
    assert!(RawFileSink::new("file.bin".to_string(), i32::MIN).is_err());
    assert!(RawFileSink::new("file.bin".to_string(), 0).is_ok());
    assert!(RawFileSink::new("file.bin".to_string(), i32::MAX).is_ok());
}

#[test]
fn file_sink_stages_one_record_per_write() {
    let mut sink = FileSink::new("file.bin".to_string(), 60).unwrap();
    sink.take_output();
    sink.write_at(&b"ab".to_vec(), SECOND);
    sink.write_at(&vec![], 2 * SECOND);
    assert_eq!(
        sink.take_output(),
        vec![
            Output::Append {
                filename: "file.bin".to_string(),
                bytes: vec![0, 0, 0, 0, 0, 0, 0, 2, b'a', b'b'],
            },
            Output::Append { filename: "file.bin".to_string(), bytes: vec![0; 8] },
        ]
    );
}

#[test]
fn raw_sink_stages_bytes_unframed() {
    let mut sink = RawFileSink::new("raw.bin".to_string(), 60).unwrap();
    sink.take_output();
    sink.write_at(&b"ab".to_vec(), SECOND);
    assert_eq!(
        sink.take_output(),
        vec![Output::Append { filename: "raw.bin".to_string(), bytes: b"ab".to_vec() }]
    );
}

#[test]
fn zero_interval_flushes_every_write() {
    let mut sink = RawFileSink::new("raw.bin".to_string(), 0).unwrap();
    sink.take_output();
    sink.write_at(&b"a".to_vec(), 0);
    sink.write_at(&b"b".to_vec(), 0);
    sink.write_at(&b"c".to_vec(), 5);
    let outputs = sink.take_output();
    assert_eq!(outputs.len(), 6);
    assert_eq!(flushes(&outputs), 3);
    assert_eq!(*sink.flush_time(), 0);
}

#[test]
fn writes_within_the_interval_flush_once() {
    let mut sink = RawFileSink::new("raw.bin".to_string(), 5).unwrap();
    sink.take_output();
    assert_eq!(*sink.last_flush(), 0);

    // The interval has passed since the sink was made: this write flushes.
    assert!(sink.flush_due(5 * SECOND));
    sink.write_at(&b"a".to_vec(), 5 * SECOND);
    assert_eq!(*sink.last_flush(), 5 * SECOND);
    // Within a second of the first: no second flush.
    assert!(!sink.flush_due(6 * SECOND - 1));
    sink.write_at(&b"b".to_vec(), 6 * SECOND - 1);
    assert_eq!(*sink.last_flush(), 5 * SECOND);
    assert_eq!(flushes(&sink.take_output()), 1);

    // Just before the interval has passed again: still none.
    sink.write_at(&b"c".to_vec(), 10 * SECOND - 1);
    assert_eq!(flushes(&sink.take_output()), 0);
    // Once it has passed: a flush.
    sink.write_at(&b"d".to_vec(), 10 * SECOND);
    let outputs = sink.take_output();
    assert_eq!(
        outputs,
        vec![
            Output::Append { filename: "raw.bin".to_string(), bytes: b"d".to_vec() },
            Output::Flush { filename: "raw.bin".to_string() },
        ]
    );
    assert_eq!(*sink.last_flush(), 10 * SECOND);
}

#[test]
fn writes_before_the_interval_do_not_flush() {
    let mut sink = FileSink::new("file.bin".to_string(), 5).unwrap();
    sink.take_output();
    sink.write_at(&b"a".to_vec(), 0);
    sink.write_at(&b"b".to_vec(), SECOND);
    assert_eq!(flushes(&sink.take_output()), 0);
    sink.write_at(&b"c".to_vec(), 5 * SECOND);
    assert_eq!(flushes(&sink.take_output()), 1);
}

#[test]
fn clock_that_runs_backwards_counts_as_no_time() {
    let mut sink = RawFileSink::new("raw.bin".to_string(), 1).unwrap();
    sink.take_output();
    sink.flush_at(10 * SECOND);
    assert!(!sink.flush_due(3 * SECOND));
    sink.write_at(&b"a".to_vec(), 3 * SECOND);
    assert_eq!(flushes(&sink.take_output()), 1);
    assert_eq!(*sink.last_flush(), 10 * SECOND);
}

#[test]
fn explicit_flush_resets_the_timer() {
    let mut sink = FileSink::new("file.bin".to_string(), 5).unwrap();
    sink.take_output();
    sink.flush_at(4 * SECOND);
    sink.write_at(&b"a".to_vec(), 8 * SECOND);
    let outputs = sink.take_output();
    assert_eq!(flushes(&outputs), 1);
    assert_eq!(outputs[0], Output::Flush { filename: "file.bin".to_string() });
    sink.write_at(&b"b".to_vec(), 9 * SECOND);
    assert_eq!(flushes(&sink.take_output()), 1);
}

#[test]
fn write_by_the_clock_stages_the_record() {
    let mut sink = FileSink::new("file.bin".to_string(), 1000).unwrap();
    sink.take_output();
    assert!(sink.write(&b"xyz".to_vec()).is_ok());
    assert_eq!(
        sink.take_output(),
        vec![Output::Append {
            filename: "file.bin".to_string(),
            bytes: vec![0, 0, 0, 0, 0, 0, 0, 3, b'x', b'y', b'z'],
        }]
    );
    assert!(sink.flush().is_ok());
    assert_eq!(sink.take_output(), vec![Output::Flush { filename: "file.bin".to_string() }]);
    let first = sink.now();
    let second = sink.now();
    assert!(first <= second);
}
