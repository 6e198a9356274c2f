//! Normalized readings: the outcome of one poll exchange with one sensor,
//! and the frame in which a tick's batch is delivered to the consumer.

use vstd::prelude::*;
use vstd::string::*;
use crate::sensor::SensorDescriptor;

verus! {

/// How one poll exchange ended.
#[derive(Clone, Copy, PartialEq, Eq, Structural, Debug)]
pub enum ReadStatus {
    /// A reply arrived and decoded.
    Success,
    /// No reply arrived before the timeout, or the exchange itself failed.
    CommError,
    /// A reply arrived but did not decode.
    ValueError,
}

impl ReadStatus {
    /// The status name on the wire.
    pub fn label(&self) -> (r: String)
        ensures
            *self is Success ==> r@ == "SUCCESS"@,
            *self is CommError ==> r@ == "COMM_ERROR"@,
            *self is ValueError ==> r@ == "VALUE_ERROR"@,
    {
        match self {
            ReadStatus::Success => String::from_str("SUCCESS"),
            ReadStatus::CommError => String::from_str("COMM_ERROR"),
            ReadStatus::ValueError => String::from_str("VALUE_ERROR"),
        }
    }
}

/// One reading record: produced once per sensor per tick, never mutated.
pub struct Reading {
    /// Seconds since the epoch, taken once per tick.
    pub timestamp: u64,
    /// Where the reading came from: location, a dot, and the alias.
    pub source: String,
    pub status: ReadStatus,
    /// The decoded text, the decode error's text, or a placeholder.
    pub value: String,
    /// The log line: the source, a colon and a space, and the value.
    pub message: String,
}

/// What `serde_json::from_slice::<String>` yields on given bytes: whether
/// they form one JSON string, and the decoded text or the error's text.
/// The result depends on the bytes alone.
pub uninterp spec fn scalar_decoding(b: Seq<u8>) -> Result<Seq<char>, Seq<char>>;

/// Relies on `serde_json::from_slice::<String>`: decodes one JSON-encoded
/// string; on any other payload it reports an error, whose text
/// `serde_json::Error`'s `Display` renders from the input alone.
#[verifier::external_body]
fn decode_scalar(bytes: &Vec<u8>) -> (r: Result<String, String>)
    ensures
        match (r, scalar_decoding(bytes@)) {
            (Ok(v), Ok(t)) => v@ == t,
            (Err(e), Err(t)) => e@ == t,
            _ => false,
        },
{
    match serde_json::from_slice::<String>(bytes.as_slice()) {
        Ok(v) => Ok(v),
        Err(e) => Err(e.to_string()),
    }
}

/// Classifies a decoded reply: a decoded value is a success, a decode
/// failure is a value error carrying the error's text.
pub fn classify_value(decoded: Result<String, String>) -> (r: (ReadStatus, String))
    ensures
        decoded matches Ok(v) ==> r.0 is Success && r.1 == v,
        decoded matches Err(e) ==> r.0 is ValueError && r.1 == e,
{
    match decoded {
        Ok(v) => (ReadStatus::Success, v),
        Err(e) => (ReadStatus::ValueError, e),
    }
}

/// The `source` string of a reading: location, a dot, and the alias.
pub fn source_label(location: &String, alias: &String) -> (r: String)
    ensures
        r@ == location@ + seq!['.'] + alias@,
{
    proof {
        reveal_strlit(".");
    }
    let mut s = location.clone();
    s.append(".");
    s.append(alias.as_str());
    assert(s@ =~= location@ + seq!['.'] + alias@);
    s
}

/// Builds the reading for one poll exchange: no reply is a communication
/// error with a placeholder value, a reply that decodes is a success, and a
/// reply that does not decode is a value error carrying the error's text.
pub fn make_reading(sensor: &SensorDescriptor, timestamp: u64, reply: Option<Vec<u8>>) -> (r:
    Reading)
    ensures
        r.timestamp == timestamp,
        r.source@ == sensor.location@ + seq!['.'] + sensor.alias@,
        r.message@ == r.source@ + ": "@ + r.value@,
        reply is None ==> r.status is CommError && r.value@ == "N/A"@,
        reply matches Some(b) ==> match scalar_decoding(b@) {
            Ok(v) => r.status is Success && r.value@ == v,
            Err(e) => r.status is ValueError && r.value@ == e,
        },
{
    let (status, value): (ReadStatus, String) = match reply {
        Some(bytes) => classify_value(decode_scalar(&bytes)),
        None => (ReadStatus::CommError, String::from_str("N/A")),
    };
    let source = source_label(&sensor.location, &sensor.alias);
    let message = source.clone().concat(": ").concat(value.as_str());
    Reading { timestamp, source, status, value, message }
}

/// The structured error frame's type tag for a batch that failed to
/// serialize.
pub fn blob_ser_tag() -> (r: String)
    ensures
        r@ == "BLOB_SER"@,
{
    String::from_str("BLOB_SER")
}

/// A structured error delivered in place of a batch.
pub struct PollError {
    pub error_type: String,
    pub description: Option<String>,
}

/// One delivery to the consumer: the serialized batch, or a structured
/// error.
pub struct PollResult {
    pub data: Option<Vec<u8>>,
    pub error: Option<PollError>,
}

/// Wraps a tick's serialized batch for delivery; if serialization failed,
/// the tick is never dropped silently but becomes a structured error frame.
pub fn poll_result_from(serialized: Result<Vec<u8>, String>) -> (r: PollResult)
    ensures
        serialized matches Ok(b) ==> r.data == Some(b) && r.error is None,
        serialized matches Err(e) ==> r.data is None && (r.error matches Some(pe)
            && pe.error_type@ == "BLOB_SER"@ && pe.description == Some(e)),
{
    match serialized {
        Ok(b) => PollResult { data: Some(b), error: None },
        Err(e) => PollResult {
            data: None,
            error: Some(PollError { error_type: blob_ser_tag(), description: Some(e) }),
        },
    }
}

} // verus!
