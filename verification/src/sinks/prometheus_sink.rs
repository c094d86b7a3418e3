//! A sink that counts payloads and their bytes in two counters of a metrics
//! registry, and keeps its own tally of what it has counted.
use crate::error::{SinkError, SinkErrorView};
use crate::sink::Sink;
use prometheus_client::metrics::counter::Counter;
use prometheus_client::registry::Registry;
use vstd::prelude::*;
use vstd::string::*;

verus! {

/// A counter of `prometheus_client`. A counter is a handle on a value that it
/// shares with its clones, so nothing is known of what one holds.
#[verifier::external_type_specification]
#[verifier::external_body]
#[verifier::reject_recursive_types(N)]
#[verifier::reject_recursive_types(A)]
pub struct ExCounter<N, A>(prometheus_client::metrics::counter::Counter<N, A>);

/// The metrics registry of `prometheus_client`.
#[verifier::external_type_specification]
#[verifier::external_body]
pub struct ExRegistry(prometheus_client::registry::Registry);

/// The names under which metrics were registered with `registry`, oldest first.
pub uninterp spec fn registered_names(registry: Registry) -> Seq<Seq<char>>;

/// A counter of its own, at zero.
///
/// Calls `Counter::default`. The contract claims nothing of the result.
#[verifier::external_body]
fn new_counter() -> Counter {
    Counter::default()
}

/// Another handle on the value that `counter` counts in.
///
/// Calls `Counter::clone`. The contract claims nothing of the result.
#[verifier::external_body]
fn share_counter(counter: &Counter) -> Counter {
    counter.clone()
}

/// Registers `counter` with `registry` under `name`, with the help text `help`.
///
/// Calls `Registry::register`. The contract claims what the source shows: the
/// registry holds one more metric, the last one, under that name.
#[verifier::external_body]
fn register_counter(registry: &mut Registry, name: String, help: &str, counter: Counter)
    ensures
        registered_names(*final(registry)) == registered_names(*old(registry)).push(name@),
{
    registry.register(name, help, counter);
}

/// Adds `amount` to `counter`.
///
/// Calls `Counter::inc_by`. The value is shared with the registry, so the
/// contract claims nothing.
#[verifier::external_body]
fn add_to_counter(counter: &Counter, amount: u64) {
    counter.inc_by(amount);
}

/// Adds one to `counter`.
///
/// Calls `Counter::inc`. The value is shared with the registry, so the
/// contract claims nothing.
#[verifier::external_body]
fn increment_counter(counter: &Counter) {
    counter.inc();
}

/// The name of the metric that counts the bytes received by the sink
/// `endpoint_name`.
pub open spec fn data_metric_name(endpoint_name: Seq<char>) -> Seq<char> {
    endpoint_name + "_data_received"@
}

/// The name of the metric that counts the messages received by the sink
/// `endpoint_name`.
pub open spec fn messages_metric_name(endpoint_name: Seq<char>) -> Seq<char> {
    endpoint_name + "_messages_received"@
}

/// Counts the bytes and the messages it is handed in two registered counters.
#[derive(Debug)]
pub struct PrometheusSink {
    data_received: Counter,
    messages_received: Counter,
    /// What this sink has added to `data_received`, wrapping as it does.
    bytes_seen: u64,
    /// What this sink has added to `messages_received`, wrapping as it does.
    messages_seen: u64,
}

impl PrometheusSink {
    /// A sink that has counted nothing, with its two counters registered as
    /// `<endpoint_name>_data_received` and `<endpoint_name>_messages_received`.
    pub fn new(registry: &mut Registry, endpoint_name: &str) -> (sink: PrometheusSink)
        ensures
            sink@ == (PrometheusSinkView { bytes_seen: 0, messages_seen: 0 }),
            registered_names(*final(registry)) == registered_names(*old(registry)).push(
                data_metric_name(endpoint_name@),
            ).push(messages_metric_name(endpoint_name@)),
    {
        let data_received = new_counter();
        let messages_received = new_counter();
        let mut data_name = String::from_str(endpoint_name);
        data_name.append("_data_received");
        register_counter(
            registry,
            data_name,
            "Total amount of data received (in bytes)",
            share_counter(&data_received),
        );
        let mut messages_name = String::from_str(endpoint_name);
        messages_name.append("_messages_received");
        register_counter(
            registry,
            messages_name,
            "Total number of messages received",
            share_counter(&messages_received),
        );
        PrometheusSink { data_received, messages_received, bytes_seen: 0, messages_seen: 0 }
    }
}

impl Sink for PrometheusSink {
    open spec fn write_error(&self, data: Seq<u8>) -> Option<SinkErrorView> {
        None
    }

    open spec fn written(&self, data: Seq<u8>, after: &Self) -> bool {
        after@ == self@.write(data)
    }

    open spec fn flushed(&self, after: &Self) -> bool {
        after@ == self@
    }

    /// Adds the length of `data` to the byte counter and one to the message
    /// counter, and to the sink's tallies. The write always succeeds.
    fn write(&mut self, data: &Vec<u8>) -> (result: Result<(), SinkError>) {
        let amount = data.len() as u64;
        add_to_counter(&self.data_received, amount);
        increment_counter(&self.messages_received);
        self.bytes_seen = self.bytes_seen.wrapping_add(amount);
        self.messages_seen = self.messages_seen.wrapping_add(1);
        Ok(())
    }

    /// Does nothing: the counters keep nothing back.
    fn flush(&mut self) -> (result: Result<(), SinkError>) {
        Ok(())
    }
}

/// One more than the greatest count that a counter holds: counts wrap here.
pub open spec fn counter_range() -> nat {
    0x1_0000_0000_0000_0000
}

/// The count `count` after `more` was added to it, as a counter of 64 bits
/// adds: the sum, starting again from zero once it has reached the range.
pub open spec fn count_after(count: nat, more: nat) -> nat {
    (count + more) % counter_range()
}

/// What a [`PrometheusSink`] stands for: what it has added to its counters
/// since it was made. The values of the counters themselves are shared with
/// the registry and are not part of what this crate states.
pub struct PrometheusSinkView {
    /// The bytes of the payloads written.
    pub bytes_seen: nat,
    /// The number of the payloads written.
    pub messages_seen: nat,
}

impl PrometheusSinkView {
    /// The sink after a write of `data`: the payload's length more bytes, and
    /// one more message.
    pub open spec fn write(self, data: Seq<u8>) -> PrometheusSinkView {
        PrometheusSinkView {
            bytes_seen: count_after(self.bytes_seen, data.len()),
            messages_seen: count_after(self.messages_seen, 1),
        }
    }
}

impl View for PrometheusSink {
    type V = PrometheusSinkView;

    closed spec fn view(&self) -> PrometheusSinkView {
        PrometheusSinkView {
            bytes_seen: self.bytes_seen as nat,
            messages_seen: self.messages_seen as nat,
        }
    }
}

impl PrometheusSink {
    /// The bytes of the payloads written to this sink.
    pub fn bytes_seen(&self) -> (count: u64)
        ensures
            count == self@.bytes_seen,
    {
        self.bytes_seen
    }

    /// The number of the payloads written to this sink.
    pub fn messages_seen(&self) -> (count: u64)
        ensures
            count == self@.messages_seen,
    {
        self.messages_seen
    }
}

} // verus!
