//! A connection to one feed: its identity, and the sinks registered on it
//! under their names.
//!
//! The sinks of a connection are reached through `&mut self` only, so a
//! registration and a dispatch never overlap: whoever shares a connection
//! between tasks puts it behind a lock and hands out exclusive access.
use crate::error::{MessageRecorderError, MessageRecorderErrorView, SinkError, SinkErrorView};
use crate::output::{outputs_view, Output, OutputView};
use crate::sink::{Sink, SinkView, SinksEnum};
use crate::sinks::message_counter::{counted, MessageCounterView};
use crate::text::{debug_quoted, digits, push_digits, quote};
use vstd::prelude::*;
use vstd::string::*;

verus! {

/// `c` cannot stand in a file name: it separates path components or ends a
/// scheme.
pub open spec fn is_unsafe_char(c: char) -> bool {
    c == ':' || c == '/' || c == '\\'
}

/// `c`, or `_` in its place where `c` cannot stand in a file name.
pub open spec fn safe_char(c: char) -> char {
    if is_unsafe_char(c) {
        '_'
    } else {
        c
    }
}

/// `text` with every `:`, `/` and `\` replaced by `_`.
pub open spec fn sanitized(text: Seq<char>) -> Seq<char> {
    text.map_values(|c: char| safe_char(c))
}

/// No character of `text` separates path components or ends a scheme.
pub open spec fn is_safe_filename(text: Seq<char>) -> bool {
    forall|i: int| 0 <= i < text.len() ==> !is_unsafe_char(#[trigger] text[i])
}

/// What is sanitized is safe, as long as before, and sanitizing it again
/// changes nothing.
pub proof fn lemma_sanitized_is_safe(text: Seq<char>)
    ensures
        is_safe_filename(sanitized(text)),
        sanitized(text).len() == text.len(),
        sanitized(sanitized(text)) == sanitized(text),
{
    assert(sanitized(sanitized(text)) =~= sanitized(text));
}

/// Replaces every `:`, `/` and `\` of `text` by `_`.
pub fn sanitize(text: &str) -> (safe: String)
    ensures
        safe@ == sanitized(text@),
        is_safe_filename(safe@),
{
    let mut safe = String::new();
    for c in it: text.chars()
        invariant
            it.seq() == text@,
            safe@ == sanitized(text@.take(it.index() as int)),
    {
        if c == ':' || c == '/' || c == '\\' {
            safe.push('_');
        } else {
            safe.push(c);
        }
        assert(text@.take(it.index() + 1) =~= text@.take(it.index() as int).push(c));
        assert(safe@ =~= sanitized(text@.take(it.index() + 1)));
    }
    assert(text@.take(text@.len() as int) =~= text@);
    proof {
        lemma_sanitized_is_safe(text@);
    }
    safe
}

/// One registered sink.
#[derive(Debug)]
struct SinkEntry {
    name: String,
    sink: SinksEnum,
}

/// What a registered sink stands for: its name and the sink.
pub struct NamedSinkView {
    pub name: Seq<char>,
    pub sink: SinkView,
}

/// The error of the first sink, in order, that refuses `data`; `None` where
/// every sink takes it.
pub open spec fn first_write_error(sinks: Seq<NamedSinkView>, data: Seq<u8>) -> Option<
    SinkErrorView,
>
    decreases sinks.len(),
{
    if sinks.len() == 0 {
        None
    } else {
        match first_write_error(sinks.drop_last(), data) {
            Some(error) => Some(error),
            None => sinks.last().sink.write_error(data),
        }
    }
}

/// The refusal of a payload by one sink.
#[derive(Debug, Clone)]
pub struct SinkFailure {
    /// The name of the sink.
    pub sink: String,
    /// The error with which it refused.
    pub error: SinkError,
}

/// What a [`SinkFailure`] stands for.
pub struct SinkFailureView {
    pub sink: Seq<char>,
    pub error: SinkErrorView,
}

impl View for SinkFailure {
    type V = SinkFailureView;

    open spec fn view(&self) -> SinkFailureView {
        SinkFailureView { sink: self.sink@, error: self.error@ }
    }
}

/// What a list of refusals stands for.
pub open spec fn failures_view(failures: Seq<SinkFailure>) -> Seq<SinkFailureView> {
    failures.map_values(|failure: SinkFailure| failure@)
}

/// The refusals of `data` by the sinks, in their order: one for each sink
/// that refuses it.
pub open spec fn write_failures(sinks: Seq<NamedSinkView>, data: Seq<u8>) -> Seq<SinkFailureView>
    decreases sinks.len(),
{
    if sinks.len() == 0 {
        Seq::empty()
    } else {
        let before = write_failures(sinks.drop_last(), data);
        match sinks.last().sink.write_error(data) {
            Some(error) => before.push(SinkFailureView { sink: sinks.last().name, error }),
            None => before,
        }
    }
}

/// The first refusal of all is the one that a dispatch reports.
pub proof fn lemma_first_failure(sinks: Seq<NamedSinkView>, data: Seq<u8>)
    ensures
        first_write_error(sinks, data) == if write_failures(sinks, data).len() == 0 {
            None
        } else {
            Some(write_failures(sinks, data)[0].error)
        },
    decreases sinks.len(),
{
    if sinks.len() > 0 {
        lemma_first_failure(sinks.drop_last(), data);
    }
}

/// What the sinks have staged for the host, sink after sink in their order.
pub open spec fn all_staged(sinks: Seq<NamedSinkView>) -> Seq<OutputView>
    decreases sinks.len(),
{
    if sinks.len() == 0 {
        Seq::empty()
    } else {
        all_staged(sinks.drop_last()) + sinks.last().sink.staged()
    }
}

/// What a [`ZmqConnection`] stands for.
pub struct ConnectionView {
    /// The network address of the feed.
    pub addr: Seq<char>,
    /// The port of the feed, kept as the text it was given as.
    pub port: Seq<char>,
    /// The topic that the connection is restricted to, if any.
    pub topic: Option<Seq<char>>,
    /// The extension of the files that record this feed.
    pub file_extension: Seq<char>,
    /// The registered sinks, in the order in which their names first came.
    pub sinks: Seq<NamedSinkView>,
}

impl ConnectionView {
    /// The names of the registered sinks, in order.
    pub open spec fn names(self) -> Seq<Seq<char>> {
        self.sinks.map_values(|entry: NamedSinkView| entry.name)
    }

    /// No name is registered twice.
    pub open spec fn wf(self) -> bool {
        self.names().no_duplicates()
    }

    /// A sink is registered under `name`.
    pub open spec fn has_sink(self, name: Seq<char>) -> bool {
        self.names().contains(name)
    }

    /// The sinks by their names.
    pub open spec fn sink_map(self) -> Map<Seq<char>, SinkView> {
        Map::new(
            |name: Seq<char>| self.has_sink(name),
            |name: Seq<char>| self.sinks[self.names().index_of(name)].sink,
        )
    }

    /// The connection after `sink` was registered under `name`: it takes the
    /// place of the sink of that name, or comes last where there is none.
    pub open spec fn register(self, name: Seq<char>, sink: SinkView) -> ConnectionView {
        let entry = NamedSinkView { name, sink };
        if self.has_sink(name) {
            ConnectionView {
                sinks: self.sinks.update(self.names().index_of(name), entry),
                ..self
            }
        } else {
            ConnectionView { sinks: self.sinks.push(entry), ..self }
        }
    }

    /// The host string of the feed: `tcp://<address>:<port>`.
    pub open spec fn host(self) -> Seq<char> {
        "tcp://"@ + self.addr + ":"@ + self.port
    }

    /// The part of the file name that tells the topic.
    pub open spec fn topic_label(self) -> Seq<char> {
        match self.topic {
            Some(topic) => topic,
            None => "NO_TOPIC"@,
        }
    }

    /// The name of the file that records this feed:
    /// `<host>_<topic or NO_TOPIC>.<extension>`, sanitized.
    pub open spec fn filename(self) -> Seq<char> {
        sanitized(self.host() + "_"@ + self.topic_label() + "."@ + self.file_extension)
    }

    /// The topic as the connection's description shows it.
    pub open spec fn topic_text(self) -> Seq<char> {
        match self.topic {
            Some(topic) => "Some("@ + debug_quoted(topic) + ")"@,
            None => "None"@,
        }
    }

    /// The connection in words: its identity and the number of its sinks.
    pub open spec fn description(self) -> Seq<char> {
        "ZmqConnection: { addr:"@ + self.addr + ", port:"@ + self.port + ", topic:"@
            + self.topic_text() + ", file_extension:"@ + self.file_extension + ", len(sinks):"@
            + digits(self.sinks.len()) + " }"@
    }

    /// `after` is this connection after `data` was dispatched: the same
    /// identity, the same names in the same order, and each sink after
    /// exactly one write of `data`.
    pub open spec fn dispatched(self, data: Seq<u8>, after: ConnectionView) -> bool {
        &&& after.addr == self.addr
        &&& after.port == self.port
        &&& after.topic == self.topic
        &&& after.file_extension == self.file_extension
        &&& after.sinks.len() == self.sinks.len()
        &&& forall|i: int|
            0 <= i < self.sinks.len() ==> {
                &&& (#[trigger] after.sinks[i]).name == self.sinks[i].name
                &&& self.sinks[i].sink.written(data, after.sinks[i].sink)
            }
    }

    /// The connection once the host has collected what its sinks had staged.
    pub open spec fn collected(self) -> ConnectionView {
        ConnectionView {
            sinks: self.sinks.map_values(
                |entry: NamedSinkView|
                    NamedSinkView { name: entry.name, sink: entry.sink.collected() },
            ),
            ..self
        }
    }
}

/// The result of a dispatch on which the first refusal, if any, was `error`.
pub open spec fn dispatch_result(error: Option<SinkErrorView>) -> Result<
    (),
    MessageRecorderErrorView,
> {
    match error {
        None => Ok(()),
        Some(error) => Err(MessageRecorderErrorView::SinkError(error)),
    }
}

/// What `first_write_error` gives: nothing where no sink refuses `data`, and
/// otherwise the error of the sink before which none refuses.
pub proof fn lemma_first_write_error(sinks: Seq<NamedSinkView>, data: Seq<u8>)
    ensures
        first_write_error(sinks, data) is None <==> forall|i: int|
            0 <= i < sinks.len() ==> (#[trigger] sinks[i]).sink.write_error(data) is None,
        first_write_error(sinks, data) is Some ==> exists|i: int|
            {
                &&& 0 <= i < sinks.len()
                &&& (#[trigger] sinks[i]).sink.write_error(data) == first_write_error(sinks, data)
                &&& forall|j: int|
                    0 <= j < i ==> (#[trigger] sinks[j]).sink.write_error(data) is None
            },
    decreases sinks.len(),
{
    if sinks.len() > 0 {
        let front = sinks.drop_last();
        lemma_first_write_error(front, data);
        assert forall|i: int| 0 <= i < front.len() implies front[i] == sinks[i] by {}
        if first_write_error(front, data) is Some {
            let i = choose|i: int|
                {
                    &&& 0 <= i < front.len()
                    &&& (#[trigger] front[i]).sink.write_error(data) == first_write_error(
                        front,
                        data,
                    )
                    &&& forall|j: int|
                        0 <= j < i ==> (#[trigger] front[j]).sink.write_error(data) is None
                };
            assert(sinks[i] == front[i]);
            assert forall|j: int| 0 <= j < i implies (#[trigger] sinks[j]).sink.write_error(
                data,
            ) is None by {
                assert(sinks[j] == front[j]);
            }
            assert(sinks[i].sink.write_error(data) == first_write_error(sinks, data));
        } else {
            let last = sinks.len() - 1;
            assert(sinks[last] == sinks.last());
            if first_write_error(sinks, data) is Some {
                assert forall|j: int| 0 <= j < last implies (#[trigger] sinks[j]).sink.write_error(
                    data,
                ) is None by {
                    assert(sinks[j] == front[j]);
                }
                assert(sinks[last].sink.write_error(data) == first_write_error(sinks, data));
            } else {
                assert forall|i: int| 0 <= i < sinks.len() implies (#[trigger] sinks[i]).sink.write_error(
                    data,
                ) is None by {
                    if i < last {
                        assert(sinks[i] == front[i]);
                    }
                }
            }
        }
    }
}

/// A registration replaces and never duplicates. Registering under a name
/// that is taken keeps the names, their order and their number, and puts the
/// new sink in the place of the old one: the old sink is gone, and the new one
/// is the only sink of that name that a later dispatch can reach. Registering
/// under a new name adds one sink. Either way the sinks by name are what they
/// were, but for that name.
pub proof fn lemma_register(connection: ConnectionView, name: Seq<char>, sink: SinkView)
    requires
        connection.wf(),
    ensures
        connection.register(name, sink).wf(),
        connection.register(name, sink).sink_map() == connection.sink_map().insert(name, sink),
        connection.has_sink(name) ==> {
            &&& connection.register(name, sink).names() == connection.names()
            &&& connection.register(name, sink).sinks.len() == connection.sinks.len()
        },
        !connection.has_sink(name) ==> {
            &&& connection.register(name, sink).names() == connection.names().push(name)
            &&& connection.register(name, sink).sinks.len() == connection.sinks.len() + 1
        },
        forall|i: int|
            0 <= i < connection.register(name, sink).sinks.len() && (
            #[trigger] connection.register(name, sink).sinks[i]).name == name
                ==> connection.register(name, sink).sinks[i].sink == sink,
{
    let names = connection.names();
    let after = connection.register(name, sink);
    let entry = NamedSinkView { name, sink };
    if connection.has_sink(name) {
        let k = names.index_of(name);
        assert(names[k] == name);
        assert(after.names() =~= names);
        assert forall|i: int| 0 <= i < after.sinks.len() && (#[trigger] after.sinks[i]).name
            == name implies after.sinks[i].sink == sink by {
            assert(names[i] == name);
            assert(i == k);
        }
    } else {
        assert(after.names() =~= names.push(name));
        assert forall|i: int, j: int|
            0 <= i < after.names().len() && 0 <= j < after.names().len() && i != j implies after.names()[i]
            != after.names()[j] by {
            if i < names.len() {
                assert(names.contains(names[i]));
            }
            if j < names.len() {
                assert(names.contains(names[j]));
            }
        }
        assert forall|i: int| 0 <= i < after.sinks.len() && (#[trigger] after.sinks[i]).name
            == name implies after.sinks[i].sink == sink by {
            if i < names.len() {
                assert(names[i] == name);
                assert(names.contains(name));
            }
        }
    }
    assert(after.wf());
    assert forall|other: Seq<char>| after.has_sink(other) <==> (other == name
        || connection.has_sink(other)) by {
        if after.has_sink(other) {
            let i = choose|i: int| 0 <= i < after.names().len() && after.names()[i] == other;
            if other != name {
                assert(i < names.len() && names[i] == other);
            }
        }
        if connection.has_sink(other) {
            let i = choose|i: int| 0 <= i < names.len() && names[i] == other;
            assert(after.names()[i] == other);
        }
        if other == name {
            if connection.has_sink(name) {
                assert(after.names()[names.index_of(name)] == name);
            } else {
                assert(after.names()[names.len() as int] == name);
            }
        }
    }
    assert forall|other: Seq<char>| after.has_sink(other) implies #[trigger] after.sink_map()[other]
        == connection.sink_map().insert(name, sink)[other] by {
        let i = after.names().index_of(other);
        assert(after.names()[i] == other);
        if other == name {
            assert(after.sinks[i].name == name);
        } else {
            let j = names.index_of(other);
            assert(names[j] == other);
            assert(after.names()[j] == other);
            assert(i == j);
        }
    }
    assert(after.sink_map() =~= connection.sink_map().insert(name, sink));
}

/// The order of registration does not matter to what is registered: two
/// sinks registered under different names give the same sinks by name,
/// whichever came first.
pub proof fn lemma_registration_order(
    connection: ConnectionView,
    first_name: Seq<char>,
    first: SinkView,
    second_name: Seq<char>,
    second: SinkView,
)
    requires
        connection.wf(),
        first_name != second_name,
    ensures
        connection.register(first_name, first).register(second_name, second).sink_map()
            == connection.register(second_name, second).register(first_name, first).sink_map(),
{
    lemma_register(connection, first_name, first);
    lemma_register(connection.register(first_name, first), second_name, second);
    lemma_register(connection, second_name, second);
    lemma_register(connection.register(second_name, second), first_name, first);
    assert(connection.sink_map().insert(first_name, first).insert(second_name, second)
        =~= connection.sink_map().insert(second_name, second).insert(first_name, first));
}

/// A dispatch reaches every sink: it leaves the set of names as it was, and
/// every registered sink, taken by its name, is after the dispatch what
/// exactly one write of the payload makes of it. With no sink registered the
/// dispatch changes nothing and reports no error.
pub proof fn lemma_dispatch_reaches_every_sink(
    connection: ConnectionView,
    data: Seq<u8>,
    after: ConnectionView,
)
    requires
        connection.wf(),
        connection.dispatched(data, after),
    ensures
        after.wf(),
        after.names() == connection.names(),
        after.sink_map().dom() == connection.sink_map().dom(),
        forall|name: Seq<char>| #[trigger]
            connection.has_sink(name) ==> connection.sink_map()[name].written(
                data,
                after.sink_map()[name],
            ),
        connection.sinks.len() == 0 ==> after == connection && first_write_error(
            connection.sinks,
            data,
        ) is None,
{
    assert(after.names() =~= connection.names());
    assert(after.sink_map().dom() =~= connection.sink_map().dom());
    assert forall|name: Seq<char>| #[trigger] connection.has_sink(name) implies connection.sink_map()[name].written(
        data,
        after.sink_map()[name],
    ) by {
        let i = connection.names().index_of(name);
        assert(connection.names()[i] == name);
        assert(after.sinks[i].name == connection.sinks[i].name);
    }
    if connection.sinks.len() == 0 {
        assert(after.sinks =~= connection.sinks);
    }
}

/// A refusal stops nothing: where one sink refuses the payload, the
/// dispatch reports an error, and every other sink has still been written
/// to exactly once; a counter among them has counted the payload.
pub proof fn lemma_failure_is_isolated(
    connection: ConnectionView,
    data: Seq<u8>,
    after: ConnectionView,
    failing: int,
    other: int,
)
    requires
        connection.dispatched(data, after),
        0 <= failing < connection.sinks.len(),
        0 <= other < connection.sinks.len(),
        connection.sinks[failing].sink.write_error(data) is Some,
    ensures
        dispatch_result(first_write_error(connection.sinks, data)) is Err,
        connection.sinks[other].sink.written(data, after.sinks[other].sink),
        connection.sinks[other].sink matches SinkView::MessageCounter(counter)
            ==> after.sinks[other].sink == SinkView::MessageCounter(
            MessageCounterView { message_count: counted(counter.message_count) },
        ),
{
    lemma_first_write_error(connection.sinks, data);
    assert(after.sinks[other].name == connection.sinks[other].name);
}

/// The identity of one subscribed feed, and the sinks that record it.
#[derive(Debug)]
pub struct ZmqConnection {
    addr: String,
    port: String,
    topic: Option<String>,
    file_extension: String,
    sinks: Vec<SinkEntry>,
}

impl View for ZmqConnection {
    type V = ConnectionView;

    closed spec fn view(&self) -> ConnectionView {
        ConnectionView {
            addr: self.addr@,
            port: self.port@,
            topic: match self.topic {
                Some(topic) => Some(topic@),
                None => None,
            },
            file_extension: self.file_extension@,
            sinks: self.sinks@.map_values(
                |entry: SinkEntry| NamedSinkView { name: entry.name@, sink: entry.sink@ },
            ),
        }
    }
}

impl ZmqConnection {
    /// The connection is valid: no name is registered twice.
    pub open spec fn wf(&self) -> bool {
        self@.wf()
    }

    /// A connection to the feed at `addr` and `port`, restricted to `topic`
    /// where one is given, with no sink yet.
    pub fn new(addr: &str, port: &str, topic: Option<&str>, file_extension: &str) -> (connection:
        Self)
        ensures
            connection.wf(),
            connection@ == (ConnectionView {
                addr: addr@,
                port: port@,
                topic: match topic {
                    Some(topic) => Some(topic@),
                    None => None,
                },
                file_extension: file_extension@,
                sinks: Seq::empty(),
            }),
    {
        let topic = match topic {
            Some(topic) => Some(String::from_str(topic)),
            None => None,
        };
        Self::new_with_owned(
            String::from_str(addr),
            String::from_str(port),
            topic,
            String::from_str(file_extension),
        )
    }

    /// As `new`, from strings that the connection takes over.
    pub fn new_with_owned(
        addr: String,
        port: String,
        topic: Option<String>,
        file_extension: String,
    ) -> (connection: Self)
        ensures
            connection.wf(),
            connection@ == (ConnectionView {
                addr: addr@,
                port: port@,
                topic: match topic {
                    Some(topic) => Some(topic@),
                    None => None,
                },
                file_extension: file_extension@,
                sinks: Seq::empty(),
            }),
    {
        let connection = Self { addr, port, topic, file_extension, sinks: Vec::new() };
        assert(connection@.sinks =~= Seq::empty());
        assert(connection@.names() =~= Seq::empty());
        connection
    }

    /// The network address of the feed.
    pub fn get_addr(&self) -> (addr: &String)
        ensures
            addr@ == self@.addr,
    {
        &self.addr
    }

    /// The port of the feed.
    pub fn get_port(&self) -> (port: &String)
        ensures
            port@ == self@.port,
    {
        &self.port
    }

    /// The host string of the feed: `tcp://<address>:<port>`.
    pub fn get_host(&self) -> (host: String)
        ensures
            host@ == self@.host(),
    {
        let mut host = String::from_str("tcp://");
        host.append(self.addr.as_str());
        host.append(":");
        host.append(self.port.as_str());
        host
    }

    /// The topic that the connection is restricted to, if any.
    pub fn get_topic(&self) -> (topic: &Option<String>)
        ensures
            match *topic {
                Some(topic) => self@.topic == Some(topic@),
                None => self@.topic is None,
            },
    {
        &self.topic
    }

    /// The extension of the files that record this feed.
    pub fn get_file_extension(&self) -> (file_extension: &String)
        ensures
            file_extension@ == self@.file_extension,
    {
        &self.file_extension
    }

    /// The name of the file that records this feed:
    /// `<host>_<topic or NO_TOPIC>.<extension>` with every `:`, `/` and `\`
    /// replaced by `_`, so that the name is a single path component.
    pub fn get_filename(&self) -> (filename: String)
        ensures
            filename@ == self@.filename(),
            is_safe_filename(filename@),
    {
        let mut name = self.get_host();
        name.append("_");
        match &self.topic {
            Some(topic) => name.append(topic.as_str()),
            None => name.append("NO_TOPIC"),
        }
        name.append(".");
        name.append(self.file_extension.as_str());
        sanitize(name.as_str())
    }

    /// The connection in words, for logs:
    /// `ZmqConnection: { addr:.., port:.., topic:.., file_extension:.., len(sinks):.. }`.
    pub fn to_string(&self) -> (text: String)
        ensures
            text@ == self@.description(),
    {
        let mut text = String::from_str("ZmqConnection: { addr:");
        text.append(self.addr.as_str());
        text.append(", port:");
        text.append(self.port.as_str());
        text.append(", topic:");
        match &self.topic {
            Some(topic) => {
                text.append("Some(");
                text.append(quote(topic.as_str()).as_str());
                text.append(")");
            },
            None => text.append("None"),
        }
        text.append(", file_extension:");
        text.append(self.file_extension.as_str());
        text.append(", len(sinks):");
        push_digits(&mut text, self.sinks.len() as u64);
        text.append(" }");
        assert(text@ =~= self@.description());
        text
    }

    /// Whether the connection is valid, found out by looking: no name is
    /// registered twice. Every connection that this crate hands out is.
    pub fn is_valid(&self) -> (valid: bool)
        ensures
            valid == self.wf(),
    {
        let ghost names = self@.names();
        let mut i: usize = 0;
        while i < self.sinks.len()
            invariant
                i <= self.sinks.len(),
                names == self@.names(),
                forall|a: int, b: int| 0 <= a < b < i ==> names[a] != names[b],
            decreases self.sinks.len() - i,
        {
            let mut j: usize = 0;
            while j < i
                invariant
                    j <= i < self.sinks.len(),
                    names == self@.names(),
                    forall|a: int| 0 <= a < j ==> names[a] != names[i as int],
                decreases i - j,
            {
                if self.sinks[j].name == self.sinks[i].name {
                    assert(names[j as int] == names[i as int]);
                    return false;
                }
                j = j + 1;
            }
            i = i + 1;
        }
        true
    }

    /// The number of registered sinks.
    pub fn sink_count(&self) -> (count: usize)
        ensures
            count == self@.sinks.len(),
    {
        self.sinks.len()
    }

    /// Where the sink of the name `name` stands, if one is registered.
    fn position(&self, name: &String) -> (found: Option<usize>)
        ensures
            match found {
                Some(i) => i < self@.sinks.len() && self@.sinks[i as int].name == name@,
                None => !self@.has_sink(name@),
            },
    {
        let mut i: usize = 0;
        while i < self.sinks.len()
            invariant
                i <= self.sinks.len(),
                forall|j: int| 0 <= j < i ==> (#[trigger] self@.sinks[j]).name != name@,
            decreases self.sinks.len() - i,
        {
            if self.sinks[i].name == *name {
                return Some(i);
            }
            i = i + 1;
        }
        assert(!self@.names().contains(name@)) by {
            if self@.names().contains(name@) {
                let j = choose|j: int| 0 <= j < self@.names().len() && self@.names()[j] == name@;
                assert(self@.sinks[j].name == name@);
            }
        }
        None
    }

    /// Whether a sink is registered under `name`.
    pub fn has_sink(&self, name: &str) -> (found: bool)
        ensures
            found == self@.has_sink(name@),
    {
        let found = self.position(&String::from_str(name));
        proof {
            if let Some(i) = found {
                assert(self@.names()[i as int] == name@);
            }
        }
        found.is_some()
    }

    /// The sink registered under `name`, if there is one.
    pub fn get_sink(&self, name: &str) -> (found: Option<&SinksEnum>)
        requires
            self.wf(),
        ensures
            match found {
                Some(sink) => self@.has_sink(name@) && self@.sink_map()[name@] == sink@,
                None => !self@.has_sink(name@),
            },
    {
        match self.position(&String::from_str(name)) {
            Some(i) => {
                proof {
                    let names = self@.names();
                    assert(names[i as int] == name@);
                    assert(names.contains(name@));
                    let k = names.index_of(name@);
                    assert(names[k] == name@);
                }
                Some(&self.sinks[i].sink)
            },
            None => None,
        }
    }

    /// Registers `new_sink` under `sink_name`. A sink that is registered under
    /// that name already is replaced and dropped, together with what it had
    /// staged and the host had not collected; the number of sinks then stays
    /// what it was. Registration cannot fail: the lock that a shared
    /// connection sits behind is taken by whoever calls this.
    pub fn register_new_sink(&mut self, sink_name: String, new_sink: Box<SinksEnum>) -> (result:
        Result<(), MessageRecorderError>)
        requires
            old(self).wf(),
        ensures
            result is Ok,
            final(self).wf(),
            final(self)@ == old(self)@.register(sink_name@, new_sink@),
    {
        let ghost before = self@;
        let ghost names = before.names();
        let found = self.position(&sink_name);
        let entry = SinkEntry { name: sink_name, sink: *new_sink };
        match found {
            Some(i) => {
                proof {
                    assert(names[i as int] == entry.name@);
                    assert(names.contains(entry.name@));
                    let k = names.index_of(entry.name@);
                    assert(names[k] == entry.name@);
                    assert(k == i);
                }
                self.sinks[i] = entry;
                assert(self@.sinks =~= before.register(entry.name@, entry.sink@).sinks);
                assert(self@.names() =~= names);
            },
            None => {
                self.sinks.push(entry);
                assert(self@.sinks =~= before.register(entry.name@, entry.sink@).sinks);
                assert(self@.names() =~= names.push(entry.name@));
            },
        }
        Ok(())
    }

    /// Hands `data` to every registered sink, in their order, whether or not
    /// an earlier sink refused it, and returns every refusal, in that order.
    pub fn dispatch(&mut self, data: &Vec<u8>) -> (failures: Vec<SinkFailure>)
        requires
            old(self).wf(),
        ensures
            final(self).wf(),
            old(self)@.dispatched(data@, final(self)@),
            failures_view(failures@) == write_failures(old(self)@.sinks, data@),
    {
        let ghost before = self@;
        let mut failures: Vec<SinkFailure> = Vec::new();
        let mut i: usize = 0;
        assert(failures_view(failures@) =~= write_failures(before.sinks.take(0), data@));
        while i < self.sinks.len()
            invariant
                i <= self.sinks.len(),
                self@.addr == before.addr,
                self@.port == before.port,
                self@.topic == before.topic,
                self@.file_extension == before.file_extension,
                self@.sinks.len() == before.sinks.len(),
                forall|j: int|
                    0 <= j < before.sinks.len() ==> (#[trigger] self@.sinks[j]).name
                        == before.sinks[j].name,
                forall|j: int|
                    0 <= j < i ==> before.sinks[j].sink.written(
                        data@,
                        (#[trigger] self@.sinks[j]).sink,
                    ),
                forall|j: int|
                    i <= j < before.sinks.len() ==> #[trigger] self@.sinks[j] == before.sinks[j],
                failures_view(failures@) == write_failures(before.sinks.take(i as int), data@),
            decreases self.sinks.len() - i,
        {
            let ghost entering = self@;
            let ghost gathered = failures@;
            let result = self.sinks[i].sink.write(data);
            assert(self@.sinks =~= entering.sinks.update(
                i as int,
                NamedSinkView {
                    name: entering.sinks[i as int].name,
                    sink: self@.sinks[i as int].sink,
                },
            ));
            proof {
                assert(before.sinks.take(i + 1).drop_last() =~= before.sinks.take(i as int));
                assert(before.sinks.take(i + 1).last() == before.sinks[i as int]);
            }
            if let Err(error) = result {
                let failure = SinkFailure { sink: self.sinks[i].name.clone(), error };
                failures.push(failure);
                assert(failures_view(failures@) =~= failures_view(gathered).push(failure@));
            }
            i = i + 1;
        }
        assert(before.sinks.take(i as int) =~= before.sinks);
        assert(self@.names() =~= before.names());
        failures
    }

    /// Hands `data` to every registered sink, in their order, whether or not
    /// an earlier sink refused it. The result is the error of the first sink
    /// that refused, if any did; `dispatch` gives the others too.
    pub fn use_sinks(&mut self, data: &Vec<u8>) -> (result: Result<(), MessageRecorderError>)
        requires
            old(self).wf(),
        ensures
            final(self).wf(),
            old(self)@.dispatched(data@, final(self)@),
            match result {
                Ok(_) => first_write_error(old(self)@.sinks, data@) is None,
                Err(error) => dispatch_result(first_write_error(old(self)@.sinks, data@)) == Err::<
                    (),
                    MessageRecorderErrorView,
                >(error@),
            },
    {
        let mut failures = self.dispatch(data);
        proof {
            lemma_first_failure(old(self)@.sinks, data@);
        }
        if failures.len() == 0 {
            Ok(())
        } else {
            let first = failures.swap_remove(0);
            Err(MessageRecorderError::SinkError(first.error))
        }
    }

    /// Hands over what the sinks have staged since the last call: sink after
    /// sink in their order, each sink's requests oldest first.
    pub fn take_output(&mut self) -> (outputs: Vec<Output>)
        requires
            old(self).wf(),
        ensures
            final(self).wf(),
            outputs_view(outputs@) == all_staged(old(self)@.sinks),
            final(self)@ == old(self)@.collected(),
    {
        let ghost before = self@;
        let mut outputs: Vec<Output> = Vec::new();
        let mut i: usize = 0;
        assert(outputs_view(outputs@) =~= all_staged(before.sinks.take(0)));
        while i < self.sinks.len()
            invariant
                i <= self.sinks.len(),
                self@.addr == before.addr,
                self@.port == before.port,
                self@.topic == before.topic,
                self@.file_extension == before.file_extension,
                self@.sinks.len() == before.sinks.len(),
                forall|j: int|
                    0 <= j < i ==> #[trigger] self@.sinks[j] == (NamedSinkView {
                        name: before.sinks[j].name,
                        sink: before.sinks[j].sink.collected(),
                    }),
                forall|j: int| i <= j < before.sinks.len() ==> #[trigger] self@.sinks[j] == before.sinks[j],
                outputs_view(outputs@) == all_staged(before.sinks.take(i as int)),
            decreases self.sinks.len() - i,
        {
            let ghost entering = self@;
            let ghost gathered = outputs@;
            let mut more = self.sinks[i].sink.take_output();
            assert(self@.sinks =~= entering.sinks.update(
                i as int,
                NamedSinkView { name: entering.sinks[i as int].name, sink: self@.sinks[i as int].sink },
            ));
            let ghost added = more@;
            outputs.append(&mut more);
            proof {
                assert(outputs@ =~= gathered + added);
                assert(outputs_view(outputs@) =~= outputs_view(gathered) + outputs_view(added));
                assert(before.sinks.take(i + 1).drop_last() =~= before.sinks.take(i as int));
                assert(before.sinks.take(i + 1).last() == before.sinks[i as int]);
            }
            i = i + 1;
        }
        assert(before.sinks.take(i as int) =~= before.sinks);
        assert(self@.sinks =~= before.collected().sinks);
        assert(self@.names() =~= before.names());
        outputs
    }
}

} // verus!
