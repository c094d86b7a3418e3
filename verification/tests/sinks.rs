use message_recorder::error::{ErrorKind, SinkError};
use message_recorder::output::Output;
use message_recorder::sink::{Sink, SinksEnum};
use message_recorder::sinks::console_sink::ConsoleSink;
use message_recorder::sinks::file_sink::FileSink;
use message_recorder::sinks::message_counter::MessageCounter;
use message_recorder::sinks::mock_sink::MockSink;
use message_recorder::sinks::prometheus_sink::PrometheusSink;
use prometheus_client::encoding::text::encode;
use prometheus_client::registry::Registry;

fn exposition(registry: &Registry) -> String {
    let mut text = String::new();
    encode(&mut text, registry).unwrap();
    text
}

#[test]
fn console_stages_a_line_for_text() {
    let mut sink = ConsoleSink::new();
    assert!(sink.write(&b"hello".to_vec()).is_ok());
    assert!(sink.write(&"grüße".as_bytes().to_vec()).is_ok());
    assert!(sink.write(&vec![]).is_ok());
    assert_eq!(
        sink.take_output(),
        vec![
            Output::PrintLine { line: "Writing to console: hello".to_string() },
            Output::PrintLine { line: "Writing to console: grüße".to_string() },
            Output::PrintLine { line: "Writing to console: ".to_string() },
        ]
    );
    assert!(sink.take_output().is_empty());
}

#[test]
fn console_refuses_what_is_not_text() {
    let mut sink = ConsoleSink::new();
    for payload in [vec![0xffu8], vec![b'a', 0xc3], vec![0xed, 0xa0, 0x80], vec![0xc0, 0x80]] {
        match sink.write(&payload) {
            Err(SinkError::IoError(error)) => {
                assert_eq!(error.kind(), ErrorKind::InvalidData);
                assert_eq!(error.to_string(), "Failed to write to the console");
            }
            Ok(_) => panic!("Expected an error"),
        }
    }
    assert!(sink.take_output().is_empty());
    assert!(sink.flush().is_ok());
    assert!(sink.take_output().is_empty());
}

#[test]
fn counter_counts_writes() {
    let mut counter = MessageCounter::new();
    assert_eq!(*counter.message_count(), 0);
    for _ in 0..5 {
        assert!(counter.write(&b"anything".to_vec()).is_ok());
    }
    assert!(counter.write(&vec![]).is_ok());
    assert!(counter.write(&vec![0xff]).is_ok());
    assert_eq!(*counter.message_count(), 7);
    assert!(counter.flush().is_ok());
    assert_eq!(*counter.message_count(), 7);
    counter.clear_message_count();
    assert_eq!(*counter.message_count(), 0);
    counter.write(&vec![1]).unwrap();
    assert_eq!(*counter.message_count(), 1);
}

#[test]
fn mock_keeps_what_it_is_handed() {
    let mut mock = MockSink::new();
    assert!(mock.data().is_empty());
    mock.write(&b"ab".to_vec()).unwrap();
    mock.write(&vec![]).unwrap();
    mock.write(&b"cd".to_vec()).unwrap();
    assert_eq!(mock.data(), &b"abcd".to_vec());
    mock.flush().unwrap();
    assert_eq!(mock.data(), &b"abcd".to_vec());
}

#[test]
fn metrics_sink_registers_two_counters_under_its_name() {
    let mut registry = Registry::default();
    let sink = PrometheusSink::new(&mut registry, "feed");
    assert_eq!(sink.bytes_seen(), 0);
    assert_eq!(sink.messages_seen(), 0);
    let text = exposition(&registry);
    assert!(text.contains("# HELP feed_data_received Total amount of data received (in bytes)."));
    assert!(text.contains("# HELP feed_messages_received Total number of messages received."));
    assert!(text.contains("feed_data_received_total 0"));
    assert!(text.contains("feed_messages_received_total 0"));
    let data = text.find("feed_data_received").unwrap();
    let messages = text.find("feed_messages_received").unwrap();
    assert!(data < messages);
}

#[test]
fn metrics_sink_counts_bytes_and_messages() {
    let mut registry = Registry::default();
    let mut sink = PrometheusSink::new(&mut registry, "feed");
    let mut other = PrometheusSink::new(&mut registry, "other");
    assert!(sink.write(&vec![0u8; 10]).is_ok());
    assert!(sink.write(&vec![]).is_ok());
    assert!(sink.write(&vec![0xffu8; 5]).is_ok());
    assert!(other.write(&vec![1]).is_ok());
    assert!(sink.flush().is_ok());
    assert_eq!(sink.bytes_seen(), 15);
    assert_eq!(sink.messages_seen(), 3);
    assert_eq!(other.bytes_seen(), 1);
    assert_eq!(other.messages_seen(), 1);
    let text = exposition(&registry);
    assert!(text.contains("feed_data_received_total 15\n"));
    assert!(text.contains("feed_messages_received_total 3\n"));
    assert!(text.contains("other_data_received_total 1\n"));
    assert!(text.contains("other_messages_received_total 1\n"));
}

#[test]
fn enum_hands_the_payload_to_the_sink_it_holds() {
    let mut counter = SinksEnum::MessageCounter(MessageCounter::new());
    counter.write(&b"x".to_vec()).unwrap();
    match &counter {
        SinksEnum::MessageCounter(inner) => assert_eq!(*inner.message_count(), 1),
        _ => panic!("Expected MessageCounter"),
    }
    assert!(counter.take_output().is_empty());

    let mut console = SinksEnum::ConsoleSink(ConsoleSink::new());
    assert!(console.write(&vec![0xff]).is_err());
    assert!(console.write(&b"ok".to_vec()).is_ok());
    assert_eq!(
        console.take_output(),
        vec![Output::PrintLine { line: "Writing to console: ok".to_string() }]
    );

    let mut file = SinksEnum::FileSink(FileSink::new("f".to_string(), 0).unwrap());
    file.write(&b"ok".to_vec()).unwrap();
    file.flush().unwrap();
    assert_eq!(
        file.take_output(),
        vec![
            Output::CreateFile { filename: "f".to_string() },
            Output::Append { filename: "f".to_string(), bytes: vec![0, 0, 0, 0, 0, 0, 0, 2, b'o', b'k'] },
            Output::Flush { filename: "f".to_string() },
            Output::Flush { filename: "f".to_string() },
        ]
    );

    let mut mock = SinksEnum::MockSink(MockSink::new());
    mock.write(&b"m".to_vec()).unwrap();
    assert!(mock.flush().is_ok());
    assert!(mock.take_output().is_empty());
}

#[test]
fn metrics_reply_is_the_registry_as_text() {
    let mut registry = Registry::default();
    let mut sink = PrometheusSink::new(&mut registry, "feed");
    sink.write(&vec![0u8; 3]).unwrap();
    let reply = message_recorder::metrics::metrics_reply(&registry).unwrap();
    assert_eq!(
        reply.content_type,
        "application/openmetrics-text; version=1.0.0; charset=utf-8"
    );
    assert_eq!(reply.body, exposition(&registry));
    assert!(reply.body.contains("feed_data_received_total 3\n"));
    assert!(reply.body.ends_with("# EOF\n"));
}

#[test]
fn metrics_reply_for_what_the_encoder_gave() {
    let reply = message_recorder::metrics::reply_with(Ok("# EOF\n".to_string())).unwrap();
    assert_eq!(reply.body, "# EOF\n");
    assert_eq!(
        reply.content_type,
        "application/openmetrics-text; version=1.0.0; charset=utf-8"
    );
    let error = message_recorder::metrics::reply_with(Err("no luck".to_string())).unwrap_err();
    assert_eq!(error.kind(), ErrorKind::Other);
    assert_eq!(error.to_string(), "no luck");
}

#[test]
fn metrics_sink_tallies_what_its_counters_show() {
    let mut registry = Registry::default();
    let mut sink = SinksEnum::PrometheusSink(PrometheusSink::new(&mut registry, "feed"));
    for payload in [vec![], vec![1u8], vec![2u8; 300], vec![0xffu8; 7]] {
        assert!(sink.write(&payload).is_ok());
    }
    assert!(sink.flush().is_ok());
    assert!(sink.take_output().is_empty());
    match &sink {
        SinksEnum::PrometheusSink(inner) => {
            assert_eq!(inner.bytes_seen(), 308);
            assert_eq!(inner.messages_seen(), 4);
        }
        _ => panic!("Expected PrometheusSink"),
    }
    let text = exposition(&registry);
    assert!(text.contains("feed_data_received_total 308\n"));
    assert!(text.contains("feed_messages_received_total 4\n"));
}
