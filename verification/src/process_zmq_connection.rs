//! What a connection does with what its subscription receives.
//!
//! Receiving is the host program's part: it waits on the transport and hands
//! over what came, one event at a time. What is decided here is whether a
//! message is for this connection, which of its bytes are the payload, and
//! what becomes of the payload.
use crate::error::{MessageRecorderError, MessageRecorderErrorView};
use crate::text::utf8_text;
use crate::zmq_connection::{
    failures_view,
    write_failures,
    ConnectionView,
    SinkFailure,
    SinkFailureView,
    ZmqConnection,
};
use vstd::prelude::*;
use vstd::string::*;
use vstd::utf8::{decode_utf8, encode_utf8, valid_utf8};

verus! {

/// The frames `frames`, one after the other.
pub open spec fn joined(frames: Seq<Seq<u8>>) -> Seq<u8>
    decreases frames.len(),
{
    if frames.len() == 0 {
        Seq::empty()
    } else {
        joined(frames.drop_last()) + frames.last()
    }
}

/// The topic that a message of the frames `frames` came under: its first
/// frame, where there is one and it is text.
pub open spec fn received_topic(frames: Seq<Seq<u8>>) -> Option<Seq<char>> {
    if frames.len() > 0 && valid_utf8(frames[0]) {
        Some(decode_utf8(frames[0]))
    } else {
        None
    }
}

impl ConnectionView {
    /// What the connection subscribes to: the bytes of its topic, or the
    /// empty prefix, which every message matches.
    pub open spec fn subscription(self) -> Seq<u8> {
        match self.topic {
            Some(topic) => encode_utf8(topic),
            None => Seq::empty(),
        }
    }

    /// A message of the frames `frames` is for this connection: the
    /// connection is restricted to no topic, or the message came under no
    /// topic that can be read, or under exactly the connection's topic.
    pub open spec fn accepts(self, frames: Seq<Seq<u8>>) -> bool {
        match (self.topic, received_topic(frames)) {
            (Some(expected), Some(received)) => received == expected,
            _ => true,
        }
    }

    /// The payload of a message of the frames `frames`: all its frames, one
    /// after the other, without the first where the connection is restricted
    /// to a topic.
    pub open spec fn payload(self, frames: Seq<Seq<u8>>) -> Seq<u8> {
        if self.topic is Some && frames.len() > 0 {
            joined(frames.drop_first())
        } else {
            joined(frames)
        }
    }
}

/// What the transport handed over.
#[derive(Debug)]
pub enum Received {
    /// A message, as its frames.
    Message(Vec<Vec<u8>>),
    /// The end of the stream: no message.
    Nothing,
    /// An error, as the transport describes it.
    Failed(String),
}

/// What became of what was received.
#[derive(Debug)]
pub enum Outcome {
    /// The message's payload was handed to every sink, and none refused it.
    Delivered,
    /// The message's payload was handed to every sink, and some refused it:
    /// these are their refusals, in the order of the sinks. There is at
    /// least one; the first is the error of the dispatch.
    SinkFailed(Vec<SinkFailure>),
    /// The message came under this topic, which is not the connection's, and
    /// was dropped.
    UnexpectedTopic(String),
    /// There was no message.
    NoData,
    /// The transport failed.
    TransportFailed(MessageRecorderError),
}

/// What an [`Outcome`] stands for.
pub enum OutcomeView {
    Delivered,
    SinkFailed(Seq<SinkFailureView>),
    UnexpectedTopic(Seq<char>),
    NoData,
    TransportFailed(MessageRecorderErrorView),
}

impl View for Outcome {
    type V = OutcomeView;

    open spec fn view(&self) -> OutcomeView {
        match self {
            Outcome::Delivered => OutcomeView::Delivered,
            Outcome::SinkFailed(failures) => OutcomeView::SinkFailed(failures_view(failures@)),
            Outcome::UnexpectedTopic(topic) => OutcomeView::UnexpectedTopic(topic@),
            Outcome::NoData => OutcomeView::NoData,
            Outcome::TransportFailed(error) => OutcomeView::TransportFailed(error@),
        }
    }
}

/// Appends the frames of `frames` from the index `from` on to one another.
fn join_frames(frames: &Vec<Vec<u8>>, from: usize) -> (bytes: Vec<u8>)
    requires
        from <= frames.len(),
    ensures
        bytes@ == joined(frame_views(frames@).subrange(from as int, frames.len() as int)),
{
    let ghost all = frame_views(frames@);
    let mut bytes: Vec<u8> = Vec::new();
    let mut i: usize = from;
    assert(all.subrange(from as int, from as int) =~= Seq::empty());
    while i < frames.len()
        invariant
            from <= i <= frames.len(),
            all == frame_views(frames@),
            bytes@ == joined(all.subrange(from as int, i as int)),
        decreases frames.len() - i,
    {
        let frame = &frames[i];
        let ghost before = bytes@;
        let mut j: usize = 0;
        while j < frame.len()
            invariant
                j <= frame.len(),
                bytes@ == before + frame@.subrange(0, j as int),
            decreases frame.len() - j,
        {
            bytes.push(frame[j]);
            j = j + 1;
        }
        proof {
            assert(frame@.subrange(0, frame.len() as int) =~= frame@);
            assert(all.subrange(from as int, i + 1).drop_last() =~= all.subrange(
                from as int,
                i as int,
            ));
            assert(all.subrange(from as int, i + 1).last() == frame@);
        }
        i = i + 1;
    }
    bytes
}

/// What a list of frames stands for.
pub open spec fn frame_views(frames: Seq<Vec<u8>>) -> Seq<Seq<u8>> {
    frames.map_values(|frame: Vec<u8>| frame@)
}

impl ZmqConnection {
    /// What the connection subscribes to: the bytes of its topic, or nothing,
    /// which every message matches.
    pub fn get_subscription(&self) -> (prefix: Vec<u8>)
        ensures
            prefix@ == self@.subscription(),
    {
        match self.get_topic() {
            Some(topic) => topic.as_str().as_bytes_vec(),
            None => Vec::new(),
        }
    }

    /// The topic of a message that is not for this connection; `None` where
    /// the message is for it.
    pub fn unexpected_topic(&self, frames: &Vec<Vec<u8>>) -> (topic: Option<String>)
        ensures
            match topic {
                Some(topic) => !self@.accepts(frame_views(frames@)) && received_topic(
                    frame_views(frames@),
                ) == Some(topic@),
                None => self@.accepts(frame_views(frames@)),
            },
    {
        if frames.len() == 0 {
            return None;
        }
        match self.get_topic() {
            None => None,
            Some(expected) => match utf8_text(&frames[0]) {
                None => None,
                Some(received) => if received == *expected {
                    None
                } else {
                    Some(received)
                },
            },
        }
    }

    /// The payload of a message: all its frames, one after the other, without
    /// the first where the connection is restricted to a topic.
    pub fn payload(&self, frames: &Vec<Vec<u8>>) -> (data: Vec<u8>)
        ensures
            data@ == self@.payload(frame_views(frames@)),
    {
        let ghost all = frame_views(frames@);
        let skip_first = self.get_topic().is_some() && frames.len() > 0;
        if skip_first {
            assert(all.subrange(1, all.len() as int) =~= all.drop_first());
            join_frames(frames, 1)
        } else {
            assert(all.subrange(0, all.len() as int) =~= all);
            join_frames(frames, 0)
        }
    }
}

/// What becomes of `received` on `connection`, and of `connection` with it.
pub open spec fn processed(
    connection: ConnectionView,
    received: Received,
    after: ConnectionView,
    outcome: OutcomeView,
) -> bool {
    match received {
        Received::Message(frames) => {
            let frames = frame_views(frames@);
            if connection.accepts(frames) {
                let data = connection.payload(frames);
                &&& connection.dispatched(data, after)
                &&& outcome == if write_failures(connection.sinks, data).len() == 0 {
                    OutcomeView::Delivered
                } else {
                    OutcomeView::SinkFailed(write_failures(connection.sinks, data))
                }
            } else {
                &&& after == connection
                &&& received_topic(frames) == Some(outcome->UnexpectedTopic_0)
                &&& outcome is UnexpectedTopic
            }
        },
        Received::Nothing => after == connection && outcome == OutcomeView::NoData,
        Received::Failed(text) => after == connection && outcome == OutcomeView::TransportFailed(
            MessageRecorderErrorView::TmqError(text@),
        ),
    }
}

/// Takes one event of the subscription of `connection`.
///
/// A message that is for the connection has its payload handed to every
/// sink; a refusal by a sink is reported and stops nothing. A message under
/// another topic is dropped. Where nothing or an error was received, the
/// connection is left as it is and the outcome says so: it is for the caller
/// to go on receiving.
pub fn process_zmq_connection(connection: &mut ZmqConnection, received: Received) -> (outcome:
    Outcome)
    requires
        old(connection).wf(),
    ensures
        final(connection).wf(),
        processed(old(connection)@, received, final(connection)@, outcome@),
{
    match received {
        Received::Message(frames) => {
            match connection.unexpected_topic(&frames) {
                Some(topic) => Outcome::UnexpectedTopic(topic),
                None => {
                    let data = connection.payload(&frames);
                    let failures = connection.dispatch(&data);
                    if failures.len() == 0 {
                        Outcome::Delivered
                    } else {
                        Outcome::SinkFailed(failures)
                    }
                },
            }
        },
        Received::Nothing => Outcome::NoData,
        Received::Failed(text) => Outcome::TransportFailed(MessageRecorderError::TmqError(text)),
    }
}

} // verus!
