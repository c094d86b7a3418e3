use message_recorder::error::MessageRecorderError;
use message_recorder::process_zmq_connection::{process_zmq_connection, Outcome, Received};
use message_recorder::sink::SinksEnum;
use message_recorder::sinks::console_sink::ConsoleSink;
use message_recorder::sinks::message_counter::MessageCounter;
use message_recorder::sinks::mock_sink::MockSink;
use message_recorder::zmq_connection::ZmqConnection;

fn recording(topic: Option<&str>) -> ZmqConnection {
    let mut connection = ZmqConnection::new("127.0.0.1", "5555", topic, "log");
    connection
        .register_new_sink("mock".to_string(), Box::new(SinksEnum::MockSink(MockSink::new())))
        .unwrap();
    connection
        .register_new_sink(
            "count".to_string(),
            Box::new(SinksEnum::MessageCounter(MessageCounter::new())),
        )
        .unwrap();
    connection
}

fn recorded(connection: &ZmqConnection) -> Vec<u8> {
    match connection.get_sink("mock") {
        Some(SinksEnum::MockSink(mock)) => mock.data().clone(),
        _ => panic!("Expected MockSink"),
    }
}

fn counted(connection: &ZmqConnection) -> u64 {
    match connection.get_sink("count") {
        Some(SinksEnum::MessageCounter(counter)) => *counter.message_count(),
        _ => panic!("Expected MessageCounter"),
    }
}

#[test]
fn subscription_is_the_topic_or_nothing() {
    assert_eq!(recording(Some("news")).get_subscription(), b"news".to_vec());
    assert_eq!(recording(Some("grüße")).get_subscription(), "grüße".as_bytes().to_vec());
    assert_eq!(recording(None).get_subscription(), Vec::<u8>::new());
}

#[test]
fn payload_leaves_out_the_topic_frame() {
    let connection = recording(Some("news"));
    let frames = vec![b"news".to_vec(), b"ab".to_vec(), vec![], b"cd".to_vec()];
    assert_eq!(connection.payload(&frames), b"abcd".to_vec());
    assert_eq!(connection.payload(&vec![b"news".to_vec()]), Vec::<u8>::new());
    assert_eq!(connection.payload(&vec![]), Vec::<u8>::new());
}

#[test]
fn payload_is_every_frame_without_a_topic() {
    let connection = recording(None);
    let frames = vec![b"news".to_vec(), b"ab".to_vec(), b"cd".to_vec()];
    assert_eq!(connection.payload(&frames), b"newsabcd".to_vec());
    assert_eq!(connection.payload(&vec![]), Vec::<u8>::new());
}

#[test]
fn other_topics_are_told_apart_exactly() {
    let connection = recording(Some("news"));
    assert_eq!(connection.unexpected_topic(&vec![b"news".to_vec(), b"x".to_vec()]), None);
    assert_eq!(
        connection.unexpected_topic(&vec![b"newsflash".to_vec(), b"x".to_vec()]),
        Some("newsflash".to_string())
    );
    assert_eq!(
        connection.unexpected_topic(&vec![b"News".to_vec()]),
        Some("News".to_string())
    );
    assert_eq!(connection.unexpected_topic(&vec![vec![]]), Some(String::new()));
    // A first frame that is not text is no topic, and no message at all has none.
    assert_eq!(connection.unexpected_topic(&vec![vec![0xff], b"x".to_vec()]), None);
    assert_eq!(connection.unexpected_topic(&vec![]), None);
    assert_eq!(recording(None).unexpected_topic(&vec![b"any".to_vec()]), None);
}

#[test]
fn message_for_the_connection_is_delivered() {
    let mut connection = recording(Some("news"));
    let outcome = process_zmq_connection(
        &mut connection,
        Received::Message(vec![b"news".to_vec(), b"Hello, ".to_vec(), b"World!".to_vec()]),
    );
    assert!(matches!(outcome, Outcome::Delivered));
    assert_eq!(recorded(&connection), b"Hello, World!".to_vec());
    assert_eq!(counted(&connection), 1);
}

#[test]
fn message_under_another_topic_is_dropped() {
    let mut connection = recording(Some("news"));
    let outcome = process_zmq_connection(
        &mut connection,
        Received::Message(vec![b"sports".to_vec(), b"goal".to_vec()]),
    );
    match outcome {
        Outcome::UnexpectedTopic(topic) => assert_eq!(topic, "sports"),
        _ => panic!("Expected UnexpectedTopic"),
    }
    assert_eq!(recorded(&connection), Vec::<u8>::new());
    assert_eq!(counted(&connection), 0);
}

#[test]
fn without_a_topic_every_message_is_delivered_whole() {
    let mut connection = recording(None);
    let outcome = process_zmq_connection(
        &mut connection,
        Received::Message(vec![b"sports".to_vec(), b"goal".to_vec()]),
    );
    assert!(matches!(outcome, Outcome::Delivered));
    assert_eq!(recorded(&connection), b"sportsgoal".to_vec());
    assert_eq!(counted(&connection), 1);
}

#[test]
fn sink_failure_is_reported_and_the_rest_delivered() {
    let mut connection = ZmqConnection::new("127.0.0.1", "5555", None, "log");
    connection
        .register_new_sink(
            "console".to_string(),
            Box::new(SinksEnum::ConsoleSink(ConsoleSink::new())),
        )
        .unwrap();
    connection
        .register_new_sink(
            "count".to_string(),
            Box::new(SinksEnum::MessageCounter(MessageCounter::new())),
        )
        .unwrap();
    let outcome = process_zmq_connection(&mut connection, Received::Message(vec![vec![0xff]]));
    match outcome {
        Outcome::SinkFailed(failures) => {
            let error = MessageRecorderError::from(failures[0].error.clone());
            assert_eq!(error.to_string(), "Sink error: IO error: Failed to write to the console");
            assert_eq!(failures.len(), 1);
            assert_eq!(failures[0].sink, "console");
            assert_eq!(
                failures[0].error.to_string(),
                "IO error: Failed to write to the console"
            );
        }
        _ => panic!("Expected SinkFailed"),
    }
    assert_eq!(counted(&connection), 1);
}

#[test]
fn nothing_and_errors_leave_the_connection_alone() {
    let mut connection = recording(None);
    assert!(matches!(process_zmq_connection(&mut connection, Received::Nothing), Outcome::NoData));
    let outcome =
        process_zmq_connection(&mut connection, Received::Failed("socket closed".to_string()));
    match outcome {
        Outcome::TransportFailed(error) => {
            assert_eq!(error.to_string(), "Zmq error: socket closed");
        }
        _ => panic!("Expected TransportFailed"),
    }
    assert_eq!(counted(&connection), 0);
    assert_eq!(recorded(&connection), Vec::<u8>::new());
}
