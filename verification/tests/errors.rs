use message_recorder::error::{ErrorKind, IoError, MessageRecorderError, SinkError};

#[test]
fn io_error_keeps_kind_and_message() {
    let error = IoError::new(ErrorKind::NotFound, "Bad compression value");
    assert_eq!(error.kind(), ErrorKind::NotFound);
    assert_eq!(error.to_string(), "Bad compression value");
    assert_eq!(error.message, "Bad compression value");
}

#[test]
fn sink_error_text() {
    let error = SinkError::from(IoError::new(ErrorKind::Other, "disk full"));
    assert_eq!(error.to_string(), "IO error: disk full");
    assert!(matches!(error, SinkError::IoError(_)));
}

#[test]
fn recorder_error_texts() {
    let io = MessageRecorderError::from(IoError::new(ErrorKind::Other, "disk full"));
    assert!(matches!(io, MessageRecorderError::IoError(_)));
    assert_eq!(io.to_string(), "IO error: disk full");

    let sink = MessageRecorderError::from(SinkError::IoError(IoError::new(
        ErrorKind::InvalidData,
        "not text",
    )));
    assert!(matches!(sink, MessageRecorderError::SinkError(_)));
    assert_eq!(sink.to_string(), "Sink error: IO error: not text");

    let poison = MessageRecorderError::from("Failed to lock".to_string());
    assert!(matches!(poison, MessageRecorderError::PoisonError(_)));
    assert_eq!(poison.to_string(), "Poison error: Failed to lock");

    let transport = MessageRecorderError::TmqError("socket closed".to_string());
    assert_eq!(transport.to_string(), "Zmq error: socket closed");
}
