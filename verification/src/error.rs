//! The errors of sinks and connections.
use vstd::prelude::*;
use vstd::string::*;

verus! {

/// What went wrong, in the broad classes that input/output errors fall into.
#[derive(Debug, Clone, Copy, PartialEq, Eq, Structural)]
pub enum ErrorKind {
    /// Something that was asked for does not exist.
    NotFound,
    /// A parameter was not acceptable.
    InvalidInput,
    /// The data handed over was not acceptable.
    InvalidData,
    /// Anything else.
    Other,
}

/// An input/output error: its kind and a message for people.
#[derive(Debug, Clone)]
pub struct IoError {
    pub kind: ErrorKind,
    pub message: String,
}

/// What an [`IoError`] stands for.
pub struct IoErrorView {
    pub kind: ErrorKind,
    pub message: Seq<char>,
}

impl View for IoError {
    type V = IoErrorView;

    open spec fn view(&self) -> IoErrorView {
        IoErrorView { kind: self.kind, message: self.message@ }
    }
}

impl IoError {
    /// An error of the given kind with the given message.
    pub fn new(kind: ErrorKind, message: &str) -> (error: IoError)
        ensures
            error@ == (IoErrorView { kind, message: message@ }),
    {
        IoError { kind, message: String::from_str(message) }
    }

    /// The kind of this error.
    pub fn kind(&self) -> (kind: ErrorKind)
        ensures
            kind == self@.kind,
    {
        self.kind
    }

    /// The error as text: its message.
    pub fn to_string(&self) -> (text: String)
        ensures
            text@ == self@.message,
    {
        self.message.clone()
    }
}

/// A sink could not take a payload, or could not be built.
#[derive(Debug, Clone)]
pub enum SinkError {
    IoError(IoError),
}

/// What a [`SinkError`] stands for.
pub enum SinkErrorView {
    IoError(IoErrorView),
}

impl View for SinkError {
    type V = SinkErrorView;

    open spec fn view(&self) -> SinkErrorView {
        match self {
            SinkError::IoError(error) => SinkErrorView::IoError(error@),
        }
    }
}

impl From<IoError> for SinkError {
    fn from(err: IoError) -> (error: SinkError) {
        SinkError::IoError(err)
    }
}

impl vstd::std_specs::convert::FromSpecImpl<IoError> for SinkError {
    open spec fn obeys_from_spec() -> bool {
        true
    }

    open spec fn from_spec(err: IoError) -> SinkError {
        SinkError::IoError(err)
    }
}

/// The text of a sink error whose cause has the message `message`.
pub open spec fn sink_error_text(message: Seq<char>) -> Seq<char> {
    "IO error: "@ + message
}

impl SinkError {
    /// The error as text: `IO error: ` and the message of the cause.
    pub fn to_string(&self) -> (text: String)
        ensures
            text@ == match self@ {
                SinkErrorView::IoError(error) => sink_error_text(error.message),
            },
    {
        match self {
            SinkError::IoError(error) => {
                let mut text = String::from_str("IO error: ");
                text.append(error.message.as_str());
                text
            },
        }
    }
}

/// Anything that can go wrong with a connection.
#[derive(Debug, Clone)]
pub enum MessageRecorderError {
    /// The transport failed; the text is the transport's own description.
    TmqError(String),
    /// An input/output error outside any sink.
    IoError(IoError),
    /// The lock that guards a connection's sinks could not be taken.
    PoisonError(String),
    /// A sink failed.
    SinkError(SinkError),
}

/// What a [`MessageRecorderError`] stands for.
pub enum MessageRecorderErrorView {
    TmqError(Seq<char>),
    IoError(IoErrorView),
    PoisonError(Seq<char>),
    SinkError(SinkErrorView),
}

impl View for MessageRecorderError {
    type V = MessageRecorderErrorView;

    open spec fn view(&self) -> MessageRecorderErrorView {
        match self {
            MessageRecorderError::TmqError(text) => MessageRecorderErrorView::TmqError(text@),
            MessageRecorderError::IoError(error) => MessageRecorderErrorView::IoError(error@),
            MessageRecorderError::PoisonError(text) => MessageRecorderErrorView::PoisonError(text@),
            MessageRecorderError::SinkError(error) => MessageRecorderErrorView::SinkError(error@),
        }
    }
}

impl From<IoError> for MessageRecorderError {
    fn from(err: IoError) -> (error: MessageRecorderError) {
        MessageRecorderError::IoError(err)
    }
}

impl vstd::std_specs::convert::FromSpecImpl<IoError> for MessageRecorderError {
    open spec fn obeys_from_spec() -> bool {
        true
    }

    open spec fn from_spec(err: IoError) -> MessageRecorderError {
        MessageRecorderError::IoError(err)
    }
}

impl From<SinkError> for MessageRecorderError {
    fn from(err: SinkError) -> (error: MessageRecorderError) {
        MessageRecorderError::SinkError(err)
    }
}

impl vstd::std_specs::convert::FromSpecImpl<SinkError> for MessageRecorderError {
    open spec fn obeys_from_spec() -> bool {
        true
    }

    open spec fn from_spec(err: SinkError) -> MessageRecorderError {
        MessageRecorderError::SinkError(err)
    }
}

impl From<String> for MessageRecorderError {
    fn from(err: String) -> (error: MessageRecorderError) {
        MessageRecorderError::PoisonError(err)
    }
}

impl vstd::std_specs::convert::FromSpecImpl<String> for MessageRecorderError {
    open spec fn obeys_from_spec() -> bool {
        true
    }

    open spec fn from_spec(err: String) -> MessageRecorderError {
        MessageRecorderError::PoisonError(err)
    }
}

/// The text of a connection error: a prefix that tells the variant, then the
/// text of what the variant holds.
pub open spec fn recorder_error_text(error: MessageRecorderErrorView) -> Seq<char> {
    match error {
        MessageRecorderErrorView::TmqError(text) => "Zmq error: "@ + text,
        MessageRecorderErrorView::IoError(cause) => "IO error: "@ + cause.message,
        MessageRecorderErrorView::PoisonError(text) => "Poison error: "@ + text,
        MessageRecorderErrorView::SinkError(SinkErrorView::IoError(cause)) => "Sink error: "@
            + sink_error_text(cause.message),
    }
}

impl MessageRecorderError {
    /// The error as text.
    pub fn to_string(&self) -> (text: String)
        ensures
            text@ == recorder_error_text(self@),
    {
        match self {
            MessageRecorderError::TmqError(cause) => {
                let mut text = String::from_str("Zmq error: ");
                text.append(cause.as_str());
                text
            },
            MessageRecorderError::IoError(cause) => {
                let mut text = String::from_str("IO error: ");
                text.append(cause.message.as_str());
                text
            },
            MessageRecorderError::PoisonError(cause) => {
                let mut text = String::from_str("Poison error: ");
                text.append(cause.as_str());
                text
            },
            MessageRecorderError::SinkError(cause) => {
                let inner = cause.to_string();
                let mut text = String::from_str("Sink error: ");
                text.append(inner.as_str());
                text
            },
        }
    }
}

} // verus!
