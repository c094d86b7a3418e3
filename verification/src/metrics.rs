//! What the metrics endpoint answers: the registry in the OpenMetrics text
//! format. Serving it is the host program's part.
use crate::error::{ErrorKind, IoError, IoErrorView};
use prometheus_client::encoding::text::encode;
use prometheus_client::registry::Registry;
use vstd::prelude::*;
use vstd::string::*;

verus! {

/// Writes out the metrics of `registry` in the OpenMetrics text format; on
/// failure, the formatter's own words.
///
/// Calls `prometheus_client::encoding::text::encode` on an empty string. The
/// text holds the values of the counters when the call is made, so the
/// contract claims nothing of it.
#[verifier::external_body]
fn encode_registry(registry: &Registry) -> Result<String, String> {
    let mut text = String::new();
    match encode(&mut text, registry) {
        Ok(_) => Ok(text),
        Err(error) => Err(error.to_string()),
    }
}

/// The content type of the OpenMetrics text format.
pub open spec fn content_type() -> Seq<char> {
    "application/openmetrics-text; version=1.0.0; charset=utf-8"@
}

/// An answer of the metrics endpoint.
#[derive(Debug, Clone)]
pub struct MetricsReply {
    /// What the `Content-Type` header says.
    pub content_type: String,
    /// The body.
    pub body: String,
}

/// The answer for what the encoder gave: its text as the body, under the
/// content type of the format; or an error of kind `Other` with the encoder's
/// words.
pub fn reply_with(encoded: Result<String, String>) -> (reply: Result<MetricsReply, IoError>)
    ensures
        match encoded {
            Ok(text) => reply is Ok && reply->Ok_0.content_type@ == content_type()
                && reply->Ok_0.body@ == text@,
            Err(words) => reply is Err && reply->Err_0@ == (IoErrorView {
                kind: ErrorKind::Other,
                message: words@,
            }),
        },
{
    match encoded {
        Ok(body) => Ok(
            MetricsReply {
                content_type: String::from_str(
                    "application/openmetrics-text; version=1.0.0; charset=utf-8",
                ),
                body,
            },
        ),
        Err(words) => Err(IoError::new(ErrorKind::Other, words.as_str())),
    }
}

/// The answer of the metrics endpoint for `registry`, as it stands now.
pub fn metrics_reply(registry: &Registry) -> (reply: Result<MetricsReply, IoError>)
    ensures
        match reply {
            Ok(reply) => reply.content_type@ == content_type(),
            Err(error) => error@.kind == ErrorKind::Other,
        },
{
    reply_with(encode_registry(registry))
}

} // verus!
