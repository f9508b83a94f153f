//! The bridge from the message bus to the client registry: opening the bus
//! client, decoding a published payload, and relaying it to every client.

use crate::broadcaster::{
    after, offered, outcomes, retained, rising, Broadcaster, Delivery, Event,
};
use crate::error::DecodeError;
use crate::framing::{debug_quoted, frame, framed};
use redis::{Client, FromRedisValue, RedisError, Value};
use vstd::prelude::*;
use vstd::utf8::{decode_utf8, valid_utf8};

verus! {

#[verifier::external_type_specification]
#[verifier::external_body]
pub struct ExClient(redis::Client);

#[verifier::external_type_specification]
#[verifier::external_body]
pub struct ExRedisError(redis::RedisError);

/// Whether `redis::Client::open` accepts `uri`: whether the text parses as
/// a URL of one of the schemes that the redis crate was built with, with a
/// host or a socket path and, where it names a database, a number for it.
pub uninterp spec fn accepted_uri(uri: Seq<char>) -> bool;

/// Calls `redis::Client::open` on a string. The call parses and checks the
/// URL and connects to nothing; the contract names its verdict after the
/// characters of `uri`.
#[verifier::external_body]
fn open_client(uri: &str) -> (opened: Result<Client, RedisError>)
    ensures
        opened is Ok == accepted_uri(uri@),
{
    Client::open(uri)
}

/// Calls redis's `FromRedisValue::from_redis_value` for `String` on a bulk
/// value that holds `raw`. For such a value the call succeeds exactly on
/// well-formed UTF-8, with the text that the bytes encode.
#[verifier::external_body]
fn text_from_bulk(raw: &[u8]) -> (text: Result<String, RedisError>)
    ensures
        text is Ok == valid_utf8(raw@),
        text matches Ok(s) ==> s@ == decode_utf8(raw@),
{
    String::from_redis_value(&Value::Data(raw.to_vec()))
}

/// Opens a client for the message bus at `redis_uri`. Nothing is connected
/// yet; the address is checked, and a refusal is handed on as it came.
pub fn create_client(redis_uri: &str) -> (client: Result<Client, RedisError>)
    ensures
        client is Ok == accepted_uri(redis_uri@),
{
    open_client(redis_uri)
}

/// The text that a published payload carries, if it is well-formed.
pub open spec fn decoded(raw: Seq<u8>) -> Result<Seq<char>, DecodeError> {
    if valid_utf8(raw) {
        Ok(decode_utf8(raw))
    } else {
        Err(DecodeError::InvalidUtf8)
    }
}

/// Decodes one published payload into the notification's text.
pub fn decode_payload(raw: &[u8]) -> (text: Result<String, DecodeError>)
    ensures
        match text {
            Ok(s) => decoded(raw@) == Ok::<Seq<char>, DecodeError>(s@),
            Err(e) => decoded(raw@) == Err::<Seq<char>, DecodeError>(e),
        },
{
    match text_from_bulk(raw) {
        Ok(s) => Ok(s),
        Err(_) => Err(DecodeError::InvalidUtf8),
    }
}

/// The framed event that goes out for a well-formed payload `raw`.
pub open spec fn event_of(raw: Seq<u8>) -> Seq<char> {
    framed(debug_quoted(decode_utf8(raw)))
}

/// Decodes the published payload `raw` and frames it for delivery. This
/// part of a fan-out step needs no access to the registry.
pub fn notification_event(raw: &[u8]) -> (event: Result<String, DecodeError>)
    ensures
        match event {
            Ok(chunk) => valid_utf8(raw@) && chunk@ == event_of(raw@),
            Err(e) => !valid_utf8(raw@) && e == DecodeError::InvalidUtf8,
        },
{
    match decode_payload(raw) {
        Ok(text) => Ok(frame(text.as_str())),
        Err(e) => Err(e),
    }
}

/// One step of the fan-out: decodes the published payload `raw`, frames it,
/// and offers the framed event to every registered client, oldest first.
/// A payload that does not decode reaches no client and changes nothing.
pub fn relay<S, F: Fn(&S, &str) -> bool>(
    broadcaster: &mut Broadcaster<S>,
    raw: &[u8],
    deliver: F,
) -> (relayed: Result<Vec<Delivery>, DecodeError>)
    requires
        forall|i: int, chunk: &str|
            0 <= i < old(broadcaster)@.len() ==> #[trigger] deliver.requires(
                (&old(broadcaster)@[i].sink, chunk),
            ),
    ensures
        match relayed {
            Ok(report) => {
                &&& valid_utf8(raw@)
                &&& exists|chunk: &str|
                    chunk@ == event_of(raw@) && #[trigger] offered(
                        deliver,
                        old(broadcaster)@,
                        chunk,
                        report@,
                    )
                &&& final(broadcaster)@ == retained(old(broadcaster)@, outcomes(report@))
                &&& final(broadcaster).registry() == after(
                    old(broadcaster).registry(),
                    Event::Publish(outcomes(report@)),
                )
                &&& rising(final(broadcaster)@, final(broadcaster).issued())
            },
            Err(e) => {
                &&& !valid_utf8(raw@)
                &&& e == DecodeError::InvalidUtf8
                &&& final(broadcaster)@ == old(broadcaster)@
            },
        },
        final(broadcaster).issued() == old(broadcaster).issued(),
{
    match notification_event(raw) {
        Ok(event) => Ok(broadcaster.broadcast(event.as_str(), deliver)),
        Err(e) => Err(e),
    }
}

} // verus!
