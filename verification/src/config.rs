//! From a declarative configuration to connections with their sinks.
//!
//! The configuration arrives as plain values; reading and parsing the file it
//! comes from is the host program's part.
use crate::error::{IoError, IoErrorView, MessageRecorderError, MessageRecorderErrorView};
use crate::output::OutputView;
use crate::sink::{SinkView, SinksEnum};
use crate::sinks::compressed_file_sink::{
    bad_compression_level,
    check_compression_level,
    valid_compression_level,
    CompressedFileSink,
    CompressedFileSinkView,
    MIN_COMPRESSION_LEVEL,
};
use crate::sinks::console_sink::{ConsoleSink, ConsoleSinkView};
use crate::sinks::file_sink::FileSink;
use crate::sinks::message_counter::{MessageCounter, MessageCounterView};
use crate::sinks::prometheus_sink::{
    data_metric_name,
    messages_metric_name,
    registered_names,
    PrometheusSink,
    PrometheusSinkView,
};
use crate::sinks::raw_file_sink::{bad_flush_time, check_flush_time, RawFileSinkView};
use crate::text::{decimal, push_digits, same_text};
use crate::zmq_connection::{ConnectionView, ZmqConnection};
use prometheus_client::registry::Registry;
use vstd::prelude::*;
use vstd::string::*;

verus! {

/// The kinds of sink that a configuration can ask for.
#[derive(Debug, Clone, Copy, PartialEq, Eq, Structural)]
pub enum SinkKind {
    /// Records payloads as length-prefixed records of a file.
    File,
    /// Echoes payloads on the console.
    Console,
    /// Records compressed payloads as length-prefixed records of a file.
    Compressed,
    /// Counts payloads.
    Counter,
    /// Counts payloads and bytes in a metrics registry.
    Metrics,
}

/// The kind that the label `label` stands for. Labels are matched exactly,
/// case included; any other text stands for no kind.
pub open spec fn kind_of(label: Seq<char>) -> Option<SinkKind> {
    if label == "File Sink"@ {
        Some(SinkKind::File)
    } else if label == "Console Sink"@ {
        Some(SinkKind::Console)
    } else if label == "Compressed Sink"@ {
        Some(SinkKind::Compressed)
    } else if label == "Message Counter"@ {
        Some(SinkKind::Counter)
    } else if label == "Prometheus Client"@ {
        Some(SinkKind::Metrics)
    } else {
        None
    }
}

impl SinkKind {
    /// The kind that `label` stands for, if it stands for one.
    pub fn parse(label: &str) -> (kind: Option<SinkKind>)
        ensures
            kind == kind_of(label@),
    {
        if same_text(label, "File Sink") {
            Some(SinkKind::File)
        } else if same_text(label, "Console Sink") {
            Some(SinkKind::Console)
        } else if same_text(label, "Compressed Sink") {
            Some(SinkKind::Compressed)
        } else if same_text(label, "Message Counter") {
            Some(SinkKind::Counter)
        } else if same_text(label, "Prometheus Client") {
            Some(SinkKind::Metrics)
        } else {
            None
        }
    }
}

/// What a configuration says of one sink.
#[derive(Debug, Clone)]
pub struct SinkConfig {
    /// The label of the sink's kind.
    pub sink_type: String,
    /// The name to register the sink under; the kind's label where absent.
    pub name: Option<String>,
    /// The flush interval in seconds; 0 where absent.
    pub flush_time: Option<i32>,
    /// The compression level; the lowest valid level where absent.
    pub compression_level: Option<i32>,
}

/// What a configuration says of one connection.
#[derive(Debug, Clone)]
pub struct ConnectionConfig {
    pub addr: String,
    pub port: i32,
    pub topic: Option<String>,
    pub file_extension: String,
    pub sinks: Option<Vec<SinkConfig>>,
}

/// A whole configuration.
#[derive(Debug, Clone)]
pub struct Config {
    pub connections: Vec<ConnectionConfig>,
}

/// The port number as the text that a host string holds.
pub fn port_text(port: i32) -> (text: String)
    ensures
        text@ == decimal(port as int),
{
    let mut text = String::new();
    if port < 0 {
        text.push('-');
        let magnitude: u64 = (-(port as i64)) as u64;
        push_digits(&mut text, magnitude);
    } else {
        push_digits(&mut text, port as u64);
    }
    assert(text@ =~= decimal(port as int));
    text
}

/// The path of the file `file` in the directory `dir`, as the platform joins
/// paths.
pub uninterp spec fn joined_path(dir: Seq<char>, file: Seq<char>) -> Seq<char>;

/// Joins the directory `dir` and the file name `file` into one path.
///
/// Calls `std::path::Path::join` on `dir` and turns the result back into a
/// string. The result depends on the two texts alone; the contract gives it
/// the name `joined_path` and claims no more.
#[verifier::external_body]
fn join_path(dir: &str, file: &str) -> (path: String)
    ensures
        path@ == joined_path(dir@, file@),
{
    std::path::Path::new(dir).join(file).to_string_lossy().into_owned()
}

/// Where the file `filename` goes: into `out_dir` where one is given, else
/// wherever `filename` says.
pub open spec fn filepath(filename: Seq<char>, out_dir: Option<String>) -> Seq<char> {
    match out_dir {
        Some(dir) => joined_path(dir@, filename),
        None => filename,
    }
}

/// The path of the file `filename`, in `out_dir` where one is given.
pub fn create_filepath(filename: String, out_dir: &Option<String>) -> (path: String)
    ensures
        path@ == filepath(filename@, *out_dir),
{
    match out_dir {
        Some(dir) => join_path(dir.as_str(), filename.as_str()),
        None => filename,
    }
}

impl SinkConfig {
    /// The name under which the sink is registered.
    pub open spec fn sink_name(self) -> Seq<char> {
        match self.name {
            Some(name) => name@,
            None => self.sink_type@,
        }
    }

    /// The flush interval that the sink gets.
    pub open spec fn flush_seconds(self) -> int {
        match self.flush_time {
            Some(seconds) => seconds as int,
            None => 0,
        }
    }

    /// The compression level that the sink gets.
    pub open spec fn level(self) -> int {
        match self.compression_level {
            Some(level) => level as int,
            None => MIN_COMPRESSION_LEVEL as int,
        }
    }

    /// What is wrong with this entry, if anything: a compressing sink needs a
    /// valid level, and a sink with a file a flush interval that is not
    /// negative. An entry of an unknown kind is not wrong: it is passed over.
    pub open spec fn error(self) -> Option<IoErrorView> {
        match kind_of(self.sink_type@) {
            Some(SinkKind::File) => if self.flush_seconds() < 0 {
                Some(bad_flush_time())
            } else {
                None
            },
            Some(SinkKind::Compressed) => if !valid_compression_level(self.level()) {
                Some(bad_compression_level())
            } else if self.flush_seconds() < 0 {
                Some(bad_flush_time())
            } else {
                None
            },
            _ => None,
        }
    }

    /// The sink that this entry asks for, where it is not wrong, with `path`
    /// as the path of its file if it has one; `None` for an unknown kind.
    pub open spec fn sink(self, path: Seq<char>) -> Option<SinkView> {
        let file = RawFileSinkView {
            filename: path,
            flush_time: self.flush_seconds() as nat,
            last_flush: 0,
            staged: seq![OutputView::CreateFile { filename: path }],
        };
        match kind_of(self.sink_type@) {
            Some(SinkKind::File) => Some(SinkView::FileSink(file)),
            Some(SinkKind::Console) => Some(
                SinkView::ConsoleSink(ConsoleSinkView { staged: Seq::empty() }),
            ),
            Some(SinkKind::Compressed) => Some(
                SinkView::CompressedFileSink(
                    CompressedFileSinkView { file, compression_level: self.level() },
                ),
            ),
            Some(SinkKind::Counter) => Some(
                SinkView::MessageCounter(MessageCounterView { message_count: 0 }),
            ),
            Some(SinkKind::Metrics) => Some(
                SinkView::PrometheusSink(PrometheusSinkView { bytes_seen: 0, messages_seen: 0 }),
            ),
            None => None,
        }
    }

    /// The names of the metrics that building this entry's sink registers.
    pub open spec fn metric_names(self) -> Seq<Seq<char>> {
        if kind_of(self.sink_type@) == Some(SinkKind::Metrics) {
            seq![data_metric_name(self.sink_name()), messages_metric_name(self.sink_name())]
        } else {
            Seq::empty()
        }
    }

    /// The name under which the sink is registered: the configured one, or
    /// the label of the sink's kind.
    pub fn registered_name(&self) -> (name: String)
        ensures
            name@ == self.sink_name(),
    {
        match &self.name {
            Some(name) => name.clone(),
            None => self.sink_type.clone(),
        }
    }

    /// Checks the entry before anything is built from it.
    pub fn validate(&self) -> (result: Result<(), IoError>)
        ensures
            match result {
                Ok(_) => self.error() is None,
                Err(error) => self.error() == Some(error@),
            },
    {
        let flush_time = match self.flush_time {
            Some(seconds) => seconds,
            None => 0,
        };
        match SinkKind::parse(self.sink_type.as_str()) {
            Some(SinkKind::File) => check_flush_time(flush_time),
            Some(SinkKind::Compressed) => {
                let level = match self.compression_level {
                    Some(level) => level,
                    None => MIN_COMPRESSION_LEVEL as i32,
                };
                match check_compression_level(level) {
                    Ok(_) => check_flush_time(flush_time),
                    Err(error) => Err(error),
                }
            },
            _ => Ok(()),
        }
    }

    /// Builds the sink that this entry asks for, with `path` as the path of
    /// its file if it has one. A metrics sink registers its two counters with
    /// `registry`; nothing else touches the registry. An entry of an unknown
    /// kind gives no sink, and a wrong entry an error.
    pub fn build(&self, path: String, registry: &mut Registry) -> (built: Result<
        Option<SinksEnum>,
        IoError,
    >)
        ensures
            match built {
                Ok(sink) => {
                    &&& self.error() is None
                    &&& match sink {
                        Some(sink) => self.sink(path@) == Some(sink@),
                        None => self.sink(path@) is None,
                    }
                    &&& registered_names(*final(registry)) == registered_names(*old(registry))
                        + self.metric_names()
                },
                Err(error) => {
                    &&& self.error() == Some(error@)
                    &&& registered_names(*final(registry)) == registered_names(*old(registry))
                },
            },
    {
        let flush_time = match self.flush_time {
            Some(seconds) => seconds,
            None => 0,
        };
        proof {
            assert(registered_names(*registry) + Seq::<Seq<char>>::empty() =~= registered_names(
                *registry,
            ));
        }
        match SinkKind::parse(self.sink_type.as_str()) {
            Some(SinkKind::File) => match FileSink::new(path, flush_time) {
                Ok(sink) => Ok(Some(SinksEnum::FileSink(sink))),
                Err(error) => Err(error),
            },
            Some(SinkKind::Console) => Ok(Some(SinksEnum::ConsoleSink(ConsoleSink::new()))),
            Some(SinkKind::Compressed) => {
                let level = match self.compression_level {
                    Some(level) => level,
                    None => MIN_COMPRESSION_LEVEL as i32,
                };
                match CompressedFileSink::new(path, flush_time, level) {
                    Ok(sink) => Ok(Some(SinksEnum::CompressedFileSink(sink))),
                    Err(error) => Err(error),
                }
            },
            Some(SinkKind::Counter) => Ok(Some(SinksEnum::MessageCounter(MessageCounter::new()))),
            Some(SinkKind::Metrics) => {
                let name = self.registered_name();
                let ghost before = registered_names(*registry);
                let sink = PrometheusSink::new(registry, name.as_str());
                assert(registered_names(*registry) =~= before + self.metric_names());
                Ok(Some(SinksEnum::PrometheusSink(sink)))
            },
            None => Ok(None),
        }
    }
}

/// The error of the first entry, in order, that is wrong; `None` where none
/// is.
pub open spec fn first_sink_error(sinks: Seq<SinkConfig>) -> Option<IoErrorView>
    decreases sinks.len(),
{
    if sinks.len() == 0 {
        None
    } else {
        match first_sink_error(sinks.drop_last()) {
            Some(error) => Some(error),
            None => sinks.last().error(),
        }
    }
}

/// `connection` after the sinks of the entries `sinks` were registered on it,
/// in order, each under its name; entries of an unknown kind are passed over.
/// `path` is the path of the file of every sink that has one.
pub open spec fn with_sinks(
    connection: ConnectionView,
    sinks: Seq<SinkConfig>,
    path: Seq<char>,
) -> ConnectionView
    decreases sinks.len(),
{
    if sinks.len() == 0 {
        connection
    } else {
        let before = with_sinks(connection, sinks.drop_last(), path);
        match sinks.last().sink(path) {
            Some(sink) => before.register(sinks.last().sink_name(), sink),
            None => before,
        }
    }
}

/// The names of the metrics that building the sinks of `sinks` registers, in
/// order.
pub open spec fn sinks_metric_names(sinks: Seq<SinkConfig>) -> Seq<Seq<char>>
    decreases sinks.len(),
{
    if sinks.len() == 0 {
        Seq::empty()
    } else {
        sinks_metric_names(sinks.drop_last()) + sinks.last().metric_names()
    }
}

/// Where no entry is the first wrong one, no entry is wrong.
proof fn lemma_no_sink_error(sinks: Seq<SinkConfig>)
    requires
        first_sink_error(sinks) is None,
    ensures
        forall|i: int| 0 <= i < sinks.len() ==> (#[trigger] sinks[i]).error() is None,
    decreases sinks.len(),
{
    if sinks.len() > 0 {
        lemma_no_sink_error(sinks.drop_last());
        assert forall|i: int| 0 <= i < sinks.len() implies (#[trigger] sinks[i]).error() is None by {
            if i < sinks.len() - 1 {
                assert(sinks[i] == sinks.drop_last()[i]);
            } else {
                assert(sinks[i] == sinks.last());
            }
        }
    }
}

impl ConnectionConfig {
    /// The entries for the connection's sinks; none where the list is absent.
    pub open spec fn sink_configs(self) -> Seq<SinkConfig> {
        match self.sinks {
            Some(sinks) => sinks@,
            None => Seq::empty(),
        }
    }

    /// The connection before any sink is registered. The port is kept as its
    /// decimal text.
    pub open spec fn base(self) -> ConnectionView {
        ConnectionView {
            addr: self.addr@,
            port: decimal(self.port as int),
            topic: match self.topic {
                Some(topic) => Some(topic@),
                None => None,
            },
            file_extension: self.file_extension@,
            sinks: Seq::empty(),
        }
    }

    /// What is wrong with this entry, if anything: the error of its first
    /// wrong sink.
    pub open spec fn error(self) -> Option<IoErrorView> {
        first_sink_error(self.sink_configs())
    }

    /// The connection that this entry asks for, where it is not wrong. The
    /// file of every sink that has one is named after the connection and
    /// stands in `out_dir` where one is given.
    pub open spec fn connection(self, out_dir: Option<String>) -> ConnectionView {
        with_sinks(self.base(), self.sink_configs(), filepath(self.base().filename(), out_dir))
    }

    /// The names of the metrics that building this connection registers.
    pub open spec fn metric_names(self) -> Seq<Seq<char>> {
        sinks_metric_names(self.sink_configs())
    }

    /// Checks the entry before anything is built from it.
    pub fn validate(&self) -> (result: Result<(), IoError>)
        ensures
            match result {
                Ok(_) => self.error() is None,
                Err(error) => self.error() == Some(error@),
            },
    {
        match &self.sinks {
            None => Ok(()),
            Some(sinks) => {
                let mut i: usize = 0;
                assert(sinks@.take(0) =~= Seq::empty());
                while i < sinks.len()
                    invariant
                        i <= sinks.len(),
                        self.sink_configs() == sinks@,
                        first_sink_error(sinks@.take(i as int)) is None,
                    decreases sinks.len() - i,
                {
                    proof {
                        assert(sinks@.take(i + 1).drop_last() =~= sinks@.take(i as int));
                        assert(sinks@.take(i + 1).last() == sinks@[i as int]);
                    }
                    match sinks[i].validate() {
                        Ok(_) => {},
                        Err(error) => {
                            proof {
                                lemma_first_sink_error_extends(sinks@, i + 1);
                            }
                            return Err(error);
                        },
                    }
                    i = i + 1;
                }
                assert(sinks@.take(i as int) =~= sinks@);
                Ok(())
            },
        }
    }

    /// Builds the connection that this entry asks for, with its sinks
    /// registered in the order of the entry.
    fn connect(&self, out_dir: &Option<String>, registry: &mut Registry) -> (connection:
        ZmqConnection)
        requires
            self.error() is None,
        ensures
            connection.wf(),
            connection@ == self.connection(*out_dir),
            registered_names(*final(registry)) == registered_names(*old(registry))
                + self.metric_names(),
    {
        let mut connection = ZmqConnection::new_with_owned(
            self.addr.clone(),
            port_text(self.port),
            self.topic.clone(),
            self.file_extension.clone(),
        );
        assert(connection@ == self.base());
        let ghost path = filepath(self.base().filename(), *out_dir);
        let ghost names = registered_names(*registry);
        assert(names + Seq::<Seq<char>>::empty() =~= names);
        match &self.sinks {
            None => connection,
            Some(sinks) => {
                let mut i: usize = 0;
                assert(sinks@.take(0) =~= Seq::empty());
                proof {
                    lemma_no_sink_error(sinks@);
                }
                while i < sinks.len()
                    invariant
                        i <= sinks.len(),
                        forall|j: int| 0 <= j < sinks.len() ==> (#[trigger] sinks@[j]).error() is None,
                        connection.wf(),
                        path == filepath(self.base().filename(), *out_dir),
                        connection@.filename() == self.base().filename(),
                        connection@ == with_sinks(self.base(), sinks@.take(i as int), path),
                        registered_names(*registry) == names + sinks_metric_names(
                            sinks@.take(i as int),
                        ),
                    decreases sinks.len() - i,
                {
                    proof {
                        assert(sinks@.take(i + 1).drop_last() =~= sinks@.take(i as int));
                        assert(sinks@.take(i + 1).last() == sinks@[i as int]);
                    }
                    let ghost registered = registered_names(*registry);
                    let file = create_filepath(connection.get_filename(), out_dir);
                    let built = sinks[i].build(file, registry);
                    assert(registered_names(*registry) =~= names + sinks_metric_names(
                        sinks@.take(i + 1),
                    ));
                    match built {
                        Ok(Some(sink)) => {
                            let ghost before = connection@;
                            let _ = connection.register_new_sink(
                                sinks[i].registered_name(),
                                Box::new(sink),
                            );
                            assert(connection@.filename() == before.filename());
                        },
                        Ok(None) => {},
                        Err(_) => {
                            assert(false);
                        },
                    }
                    i = i + 1;
                }
                assert(sinks@.take(i as int) =~= sinks@);
                connection
            },
        }
    }
}

/// The first wrong entry among the first `n` is the first wrong entry of all.
proof fn lemma_first_sink_error_extends(sinks: Seq<SinkConfig>, n: int)
    requires
        0 <= n <= sinks.len(),
        first_sink_error(sinks.take(n)) is Some,
    ensures
        first_sink_error(sinks) == first_sink_error(sinks.take(n)),
    decreases sinks.len() - n,
{
    if n < sinks.len() {
        assert(sinks.take(n + 1).drop_last() =~= sinks.take(n));
        lemma_first_sink_error_extends(sinks, n + 1);
    } else {
        assert(sinks.take(n) =~= sinks);
    }
}

/// The error of the first connection, in order, that has a wrong entry;
/// `None` where none has.
pub open spec fn first_connection_error(connections: Seq<ConnectionConfig>) -> Option<IoErrorView>
    decreases connections.len(),
{
    if connections.len() == 0 {
        None
    } else {
        match first_connection_error(connections.drop_last()) {
            Some(error) => Some(error),
            None => connections.last().error(),
        }
    }
}

/// The names of the metrics that building `connections` registers, in order.
pub open spec fn connections_metric_names(connections: Seq<ConnectionConfig>) -> Seq<Seq<char>>
    decreases connections.len(),
{
    if connections.len() == 0 {
        Seq::empty()
    } else {
        connections_metric_names(connections.drop_last()) + connections.last().metric_names()
    }
}

/// Where no connection is the first wrong one, no connection is wrong.
proof fn lemma_no_connection_error(connections: Seq<ConnectionConfig>)
    requires
        first_connection_error(connections) is None,
    ensures
        forall|i: int| 0 <= i < connections.len() ==> (#[trigger] connections[i]).error() is None,
    decreases connections.len(),
{
    if connections.len() > 0 {
        lemma_no_connection_error(connections.drop_last());
        assert forall|i: int| 0 <= i < connections.len() implies (
        #[trigger] connections[i]).error() is None by {
            if i < connections.len() - 1 {
                assert(connections[i] == connections.drop_last()[i]);
            } else {
                assert(connections[i] == connections.last());
            }
        }
    }
}

/// The first wrong connection among the first `n` is the first wrong one of
/// all.
proof fn lemma_first_connection_error_extends(connections: Seq<ConnectionConfig>, n: int)
    requires
        0 <= n <= connections.len(),
        first_connection_error(connections.take(n)) is Some,
    ensures
        first_connection_error(connections) == first_connection_error(connections.take(n)),
    decreases connections.len() - n,
{
    if n < connections.len() {
        assert(connections.take(n + 1).drop_last() =~= connections.take(n));
        lemma_first_connection_error_extends(connections, n + 1);
    } else {
        assert(connections.take(n) =~= connections);
    }
}

impl Config {
    /// What is wrong with the configuration, if anything: the error of the
    /// first wrong sink entry, connection after connection.
    pub open spec fn error(self) -> Option<IoErrorView> {
        first_connection_error(self.connections@)
    }

    /// Checks the configuration before anything is built from it.
    pub fn validate(&self) -> (result: Result<(), IoError>)
        ensures
            match result {
                Ok(_) => self.error() is None,
                Err(error) => self.error() == Some(error@),
            },
    {
        let mut i: usize = 0;
        assert(self.connections@.take(0) =~= Seq::empty());
        while i < self.connections.len()
            invariant
                i <= self.connections.len(),
                first_connection_error(self.connections@.take(i as int)) is None,
            decreases self.connections.len() - i,
        {
            proof {
                assert(self.connections@.take(i + 1).drop_last() =~= self.connections@.take(
                    i as int,
                ));
                assert(self.connections@.take(i + 1).last() == self.connections@[i as int]);
            }
            match self.connections[i].validate() {
                Ok(_) => {},
                Err(error) => {
                    proof {
                        lemma_first_connection_error_extends(self.connections@, i + 1);
                    }
                    return Err(error);
                },
            }
            i = i + 1;
        }
        assert(self.connections@.take(i as int) =~= self.connections@);
        Ok(())
    }
}

/// Builds the connections that `config` asks for, each with its sinks
/// registered in the order of its entries.
///
/// The whole configuration is checked first. Where a sink entry is wrong, the
/// error of the first such entry is returned and nothing is built or
/// registered. Otherwise there is one connection for each entry, in order, and
/// the metrics of their metrics sinks are registered with `registry`.
pub fn read_config(config: &Config, out_dir: Option<String>, registry: &mut Registry) -> (result:
    Result<Vec<ZmqConnection>, MessageRecorderError>)
    ensures
        match result {
            Ok(connections) => {
                &&& config.error() is None
                &&& connections.len() == config.connections.len()
                &&& forall|i: int|
                    0 <= i < connections.len() ==> {
                        &&& (#[trigger] connections[i]).wf()
                        &&& connections[i]@ == config.connections[i].connection(out_dir)
                    }
                &&& registered_names(*final(registry)) == registered_names(*old(registry))
                    + connections_metric_names(config.connections@)
            },
            Err(error) => {
                &&& config.error() is Some
                &&& error@ == MessageRecorderErrorView::IoError(config.error()->0)
                &&& registered_names(*final(registry)) == registered_names(*old(registry))
            },
        },
{
    match config.validate() {
        Ok(_) => {},
        Err(error) => {
            return Err(MessageRecorderError::IoError(error));
        },
    }
    proof {
        lemma_no_connection_error(config.connections@);
    }
    let ghost names = registered_names(*registry);
    assert(names + Seq::<Seq<char>>::empty() =~= names);
    let mut connections: Vec<ZmqConnection> = Vec::new();
    let mut i: usize = 0;
    assert(config.connections@.take(0) =~= Seq::empty());
    while i < config.connections.len()
        invariant
            i <= config.connections.len(),
            forall|j: int|
                0 <= j < config.connections.len() ==> (#[trigger] config.connections@[j]).error() is None,
            connections.len() == i,
            forall|j: int|
                0 <= j < i ==> {
                    &&& (#[trigger] connections[j]).wf()
                    &&& connections[j]@ == config.connections[j].connection(out_dir)
                },
            registered_names(*registry) == names + connections_metric_names(
                config.connections@.take(i as int),
            ),
        decreases config.connections.len() - i,
    {
        proof {
            assert(config.connections@.take(i + 1).drop_last() =~= config.connections@.take(
                i as int,
            ));
            assert(config.connections@.take(i + 1).last() == config.connections@[i as int]);
        }
        let connection = config.connections[i].connect(&out_dir, registry);
        assert(registered_names(*registry) =~= names + connections_metric_names(
            config.connections@.take(i + 1),
        ));
        connections.push(connection);
        i = i + 1;
    }
    assert(config.connections@.take(i as int) =~= config.connections@);
    Ok(connections)
}

} // verus!
