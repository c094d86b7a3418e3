use message_recorder::error::MessageRecorderError;
use message_recorder::output::Output;
use message_recorder::sink::SinksEnum;
use message_recorder::sinks::console_sink::ConsoleSink;
use message_recorder::sinks::file_sink::FileSink;
use message_recorder::sinks::message_counter::MessageCounter;
use message_recorder::sinks::mock_sink::MockSink;
use message_recorder::sinks::prometheus_sink::PrometheusSink;
use prometheus_client::registry::Registry;
use message_recorder::zmq_connection::{sanitize, ZmqConnection};

fn count_of(connection: &ZmqConnection, name: &str) -> u64 {
    match connection.get_sink(name) {
        Some(SinksEnum::MessageCounter(counter)) => *counter.message_count(),
        _ => panic!("Expected MessageCounter"),
    }
}

#[test]
fn test_new() {
    let connection = ZmqConnection::new("127.0.0.1", "5555", Some("test_topic"), "test");
    assert_eq!(connection.get_addr(), "127.0.0.1");
    assert_eq!(connection.get_port(), "5555");
    assert_eq!(connection.get_topic(), &Some("test_topic".to_string()));
}

#[test]
fn test_new_with_owned() {
    let connection = ZmqConnection::new_with_owned(
        "192.168.1.1".to_string(),
        "6666".to_string(),
        Some("another_topic".to_string()),
        "test".to_string(),
    );
    assert_eq!(connection.get_addr(), "192.168.1.1");
    assert_eq!(connection.get_port(), "6666");
    assert_eq!(connection.get_topic(), &Some("another_topic".to_string()));
}

#[test]
fn test_get_host() {
    let connection = ZmqConnection::new("localhost", "5555", None, "test");
    assert_eq!(connection.get_host(), "tcp://localhost:5555");
}

#[test]
fn test_get_topic_some() {
    let connection = ZmqConnection::new("127.0.0.1", "5555", Some("test_topic"), "test");
    assert_eq!(connection.get_topic(), &Some("test_topic".to_string()));
}

#[test]
fn test_get_topic_none() {
    let connection = ZmqConnection::new("127.0.0.1", "5555", None, "test");
    assert_eq!(connection.get_topic(), &None);
}

#[test]
fn test_get_file_extension() {
    let connection = ZmqConnection::new("127.0.0.1", "5555", None, "test_ext");
    assert_eq!(connection.get_file_extension(), "test_ext");
}

#[test]
fn test_get_filename_with_topic() {
    let connection = ZmqConnection::new("127.0.0.1", "5555", Some("test_topic"), "txt");
    let expected_filename = "tcp___127.0.0.1_5555_test_topic.txt";
    assert_eq!(connection.get_filename(), expected_filename);
}

#[test]
fn test_get_filename_without_topic() {
    let connection = ZmqConnection::new("127.0.0.1", "5555", None, "log");
    let expected_filename = "tcp___127.0.0.1_5555_NO_TOPIC.log";
    assert_eq!(connection.get_filename(), expected_filename);
}

#[test]
fn test_register_new_sink() {
    let mut connection = ZmqConnection::new("127.0.0.1", "5555", None, "test");
    let mock_sink = MockSink::new();
    let sink_enum = SinksEnum::MockSink(mock_sink);

    connection
        .register_new_sink("mock_sink".to_string(), Box::new(sink_enum))
        .expect("Failed to register new sink");

    // Check that the sink has been registered
    assert!(connection.has_sink("mock_sink"));
}

#[test]
fn test_use_sinks() {
    let mut connection = ZmqConnection::new("127.0.0.1", "5555", None, "test");
    let mock_sink = MockSink::new();
    let sink_enum = SinksEnum::MockSink(mock_sink);

    connection
        .register_new_sink("mock_sink".to_string(), Box::new(sink_enum))
        .expect("Failed to register new sink");

    let test_data = b"Hello, World!".to_vec();
    connection
        .use_sinks(&test_data)
        .expect("Failed to use sinks");

    let stored_data = connection.get_sink("mock_sink").unwrap();

    match stored_data {
        SinksEnum::MockSink(to_test) => {
            let data = to_test.data();
            assert_eq!(data, &test_data);
        }
        _ => panic!("Expected MockSink"),
    }
}

#[test]
fn filename_never_holds_a_separator() {
    let connection = ZmqConnection::new("a/b\\c", "1:2", Some("x/y:z\\w"), "l/o:g");
    let filename = connection.get_filename();
    assert_eq!(filename, "tcp___a_b_c_1_2_x_y_z_w.l_o_g");
    assert!(!filename.contains(':'));
    assert!(!filename.contains('/'));
    assert!(!filename.contains('\\'));
}

#[test]
fn sanitize_replaces_only_the_three_characters() {
    assert_eq!(sanitize("a:b/c\\d"), "a_b_c_d");
    assert_eq!(sanitize("plain-name_1.txt"), "plain-name_1.txt");
    assert_eq!(sanitize(""), "");
    assert_eq!(sanitize("é:ü"), "é_ü");
    assert_eq!(sanitize(&sanitize("::a//")), sanitize("::a//"));
}

#[test]
fn host_keeps_the_port_as_given() {
    let connection = ZmqConnection::new("example.org", "0080", None, "log");
    assert_eq!(connection.get_host(), "tcp://example.org:0080");
}

#[test]
fn new_connection_has_no_sinks() {
    let connection = ZmqConnection::new("127.0.0.1", "5555", None, "test");
    assert_eq!(connection.sink_count(), 0);
    assert!(!connection.has_sink("mock_sink"));
    assert!(connection.get_sink("mock_sink").is_none());
}

#[test]
fn dispatch_with_no_sinks_succeeds() {
    let mut connection = ZmqConnection::new("127.0.0.1", "5555", None, "test");
    assert!(connection.use_sinks(&b"payload".to_vec()).is_ok());
    assert_eq!(connection.sink_count(), 0);
    assert!(connection.take_output().is_empty());
}

#[test]
fn dispatch_reaches_every_sink_once() {
    let mut connection = ZmqConnection::new("127.0.0.1", "5555", None, "test");
    for name in ["a", "b", "c", "d"] {
        connection
            .register_new_sink(
                name.to_string(),
                Box::new(SinksEnum::MessageCounter(MessageCounter::new())),
            )
            .unwrap();
    }
    assert_eq!(connection.sink_count(), 4);
    connection.use_sinks(&b"one".to_vec()).unwrap();
    for name in ["a", "b", "c", "d"] {
        assert_eq!(count_of(&connection, name), 1);
    }
    connection.use_sinks(&b"two".to_vec()).unwrap();
    for name in ["d", "c", "b", "a"] {
        assert_eq!(count_of(&connection, name), 2);
    }
}

#[test]
fn dispatch_does_not_depend_on_registration_order() {
    let mut forward = ZmqConnection::new("127.0.0.1", "5555", None, "test");
    let mut backward = ZmqConnection::new("127.0.0.1", "5555", None, "test");
    forward
        .register_new_sink("mock".to_string(), Box::new(SinksEnum::MockSink(MockSink::new())))
        .unwrap();
    forward
        .register_new_sink(
            "count".to_string(),
            Box::new(SinksEnum::MessageCounter(MessageCounter::new())),
        )
        .unwrap();
    backward
        .register_new_sink(
            "count".to_string(),
            Box::new(SinksEnum::MessageCounter(MessageCounter::new())),
        )
        .unwrap();
    backward
        .register_new_sink("mock".to_string(), Box::new(SinksEnum::MockSink(MockSink::new())))
        .unwrap();
    let payload = b"same payload".to_vec();
    forward.use_sinks(&payload).unwrap();
    backward.use_sinks(&payload).unwrap();
    for connection in [&forward, &backward] {
        assert_eq!(count_of(connection, "count"), 1);
        match connection.get_sink("mock") {
            Some(SinksEnum::MockSink(mock)) => assert_eq!(mock.data(), &payload),
            _ => panic!("Expected MockSink"),
        }
    }
}

#[test]
fn registration_replaces_and_does_not_duplicate() {
    let mut connection = ZmqConnection::new("127.0.0.1", "5555", None, "test");
    connection
        .register_new_sink(
            "first".to_string(),
            Box::new(SinksEnum::MessageCounter(MessageCounter::new())),
        )
        .unwrap();
    connection
        .register_new_sink(
            "sink".to_string(),
            Box::new(SinksEnum::MessageCounter(MessageCounter::new())),
        )
        .unwrap();
    connection.use_sinks(&b"before".to_vec()).unwrap();
    connection.use_sinks(&b"before".to_vec()).unwrap();
    assert_eq!(count_of(&connection, "sink"), 2);
    assert_eq!(connection.sink_count(), 2);

    connection
        .register_new_sink("sink".to_string(), Box::new(SinksEnum::MockSink(MockSink::new())))
        .unwrap();
    assert_eq!(connection.sink_count(), 2);
    assert!(connection.has_sink("sink"));
    match connection.get_sink("sink") {
        Some(SinksEnum::MockSink(mock)) => assert!(mock.data().is_empty()),
        _ => panic!("Expected MockSink"),
    }

    connection.use_sinks(&b"after".to_vec()).unwrap();
    match connection.get_sink("sink") {
        Some(SinksEnum::MockSink(mock)) => assert_eq!(mock.data(), &b"after".to_vec()),
        _ => panic!("Expected MockSink"),
    }
    assert_eq!(count_of(&connection, "first"), 3);
}

#[test]
fn names_are_matched_exactly() {
    let mut connection = ZmqConnection::new("127.0.0.1", "5555", None, "test");
    connection
        .register_new_sink("Sink".to_string(), Box::new(SinksEnum::MockSink(MockSink::new())))
        .unwrap();
    connection
        .register_new_sink("sink".to_string(), Box::new(SinksEnum::MockSink(MockSink::new())))
        .unwrap();
    assert_eq!(connection.sink_count(), 2);
    assert!(!connection.has_sink("SINK"));
    assert!(!connection.has_sink(""));
}

#[test]
fn failing_sink_does_not_stop_the_others() {
    let mut connection = ZmqConnection::new("127.0.0.1", "5555", None, "test");
    connection
        .register_new_sink(
            "before".to_string(),
            Box::new(SinksEnum::MessageCounter(MessageCounter::new())),
        )
        .unwrap();
    connection
        .register_new_sink(
            "console".to_string(),
            Box::new(SinksEnum::ConsoleSink(ConsoleSink::new())),
        )
        .unwrap();
    connection
        .register_new_sink(
            "after".to_string(),
            Box::new(SinksEnum::MessageCounter(MessageCounter::new())),
        )
        .unwrap();

    let not_text = vec![0xff, 0xfe, 0x00];
    let result = connection.use_sinks(&not_text);
    match result {
        Err(MessageRecorderError::SinkError(error)) => {
            assert_eq!(error.to_string(), "IO error: Failed to write to the console");
        }
        _ => panic!("Expected a sink error"),
    }
    assert_eq!(count_of(&connection, "before"), 1);
    assert_eq!(count_of(&connection, "after"), 1);

    assert!(connection.use_sinks(&b"text".to_vec()).is_ok());
    assert_eq!(count_of(&connection, "before"), 2);
    assert_eq!(count_of(&connection, "after"), 2);
}

#[test]
fn first_of_two_failures_is_reported() {
    let mut connection = ZmqConnection::new("127.0.0.1", "5555", None, "test");
    connection
        .register_new_sink("one".to_string(), Box::new(SinksEnum::ConsoleSink(ConsoleSink::new())))
        .unwrap();
    connection
        .register_new_sink("two".to_string(), Box::new(SinksEnum::ConsoleSink(ConsoleSink::new())))
        .unwrap();
    let result = connection.use_sinks(&vec![0x80]);
    assert!(matches!(result, Err(MessageRecorderError::SinkError(_))));
    assert!(connection.take_output().is_empty());
}

#[test]
fn dispatch_returns_every_failure_in_order() {
    let mut connection = ZmqConnection::new("127.0.0.1", "5555", None, "test");
    for name in ["one", "count", "two"] {
        let sink = if name == "count" {
            SinksEnum::MessageCounter(MessageCounter::new())
        } else {
            SinksEnum::ConsoleSink(ConsoleSink::new())
        };
        connection.register_new_sink(name.to_string(), Box::new(sink)).unwrap();
    }
    assert!(connection.is_valid());
    let failures = connection.dispatch(&vec![0xff]);
    assert_eq!(failures.len(), 2);
    assert_eq!(failures[0].sink, "one");
    assert_eq!(failures[1].sink, "two");
    assert_eq!(failures[1].error.to_string(), "IO error: Failed to write to the console");
    assert_eq!(count_of(&connection, "count"), 1);
    assert!(connection.dispatch(&b"text".to_vec()).is_empty());
    assert_eq!(count_of(&connection, "count"), 2);
    assert!(connection.is_valid());
}

#[test]
fn take_output_goes_sink_by_sink_and_empties_them() {
    let mut connection = ZmqConnection::new("127.0.0.1", "5555", None, "test");
    connection
        .register_new_sink(
            "console".to_string(),
            Box::new(SinksEnum::ConsoleSink(ConsoleSink::new())),
        )
        .unwrap();
    connection
        .register_new_sink(
            "file".to_string(),
            Box::new(SinksEnum::FileSink(FileSink::new("out.bin".to_string(), 0).unwrap())),
        )
        .unwrap();
    connection
        .register_new_sink(
            "count".to_string(),
            Box::new(SinksEnum::MessageCounter(MessageCounter::new())),
        )
        .unwrap();
    connection.use_sinks(&b"hi".to_vec()).unwrap();
    let outputs = connection.take_output();
    assert_eq!(
        outputs,
        vec![
            Output::PrintLine { line: "Writing to console: hi".to_string() },
            Output::CreateFile { filename: "out.bin".to_string() },
            Output::Append {
                filename: "out.bin".to_string(),
                bytes: vec![0, 0, 0, 0, 0, 0, 0, 2, b'h', b'i'],
            },
            Output::Flush { filename: "out.bin".to_string() },
        ]
    );
    assert!(connection.take_output().is_empty());
    assert_eq!(connection.sink_count(), 3);
}

#[test]
fn description_tells_identity_and_number_of_sinks() {
    let mut connection = ZmqConnection::new("127.0.0.1", "5555", Some("a\"b"), "log");
    assert_eq!(
        connection.to_string(),
        "ZmqConnection: { addr:127.0.0.1, port:5555, topic:Some(\"a\\\"b\"), file_extension:log, len(sinks):0 }"
    );
    for i in 0..12 {
        connection
            .register_new_sink(
                format!("sink{}", i),
                Box::new(SinksEnum::MessageCounter(MessageCounter::new())),
            )
            .unwrap();
    }
    let plain = ZmqConnection::new("h", "1", None, "e");
    assert_eq!(
        plain.to_string(),
        "ZmqConnection: { addr:h, port:1, topic:None, file_extension:e, len(sinks):0 }"
    );
    assert!(connection.to_string().ends_with("len(sinks):12 }"));
}

#[test]
fn dispatch_is_counted_once_by_a_metrics_sink() {
    let mut registry = Registry::default();
    let mut connection = ZmqConnection::new("127.0.0.1", "5555", None, "test");
    connection
        .register_new_sink(
            "console".to_string(),
            Box::new(SinksEnum::ConsoleSink(ConsoleSink::new())),
        )
        .unwrap();
    connection
        .register_new_sink(
            "metrics".to_string(),
            Box::new(SinksEnum::PrometheusSink(PrometheusSink::new(&mut registry, "feed"))),
        )
        .unwrap();
    assert!(connection.use_sinks(&b"hello".to_vec()).is_ok());
    // The console refuses this one; the metrics sink counts it all the same.
    assert!(connection.use_sinks(&vec![0xff, 0xfe]).is_err());
    match connection.get_sink("metrics") {
        Some(SinksEnum::PrometheusSink(sink)) => {
            assert_eq!(sink.bytes_seen(), 7);
            assert_eq!(sink.messages_seen(), 2);
        }
        _ => panic!("Expected PrometheusSink"),
    }
}
