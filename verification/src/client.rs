//! The client's side of the protocol: the request of each call, and what a
//! reply means for it.

use vstd::prelude::*;
use vstd::string::*;
use crate::errors::{KvsError, KvsErrorView};
use crate::protocol::{KvsCmdRequest, KvsServerReply, KvsServerReplyStatus, RequestView, text_of};

verus! {

/// The request that gives `key` the value `value`.
pub fn set_request(key: String, value: String) -> (r: KvsCmdRequest)
    ensures
        r@ == (RequestView { cmd: "SET"@, argument: seq![key@, value@] }),
{
    let mut argument: Vec<String> = Vec::new();
    argument.push(key);
    argument.push(value);
    let r = KvsCmdRequest { cmd: String::from_str("SET"), argument };
    assert(r@.argument =~= seq![key@, value@]);
    r
}

/// The request that asks for the value of `key`.
pub fn get_request(key: String) -> (r: KvsCmdRequest)
    ensures
        r@ == (RequestView { cmd: "GET"@, argument: seq![key@] }),
{
    let mut argument: Vec<String> = Vec::new();
    argument.push(key);
    let r = KvsCmdRequest { cmd: String::from_str("GET"), argument };
    assert(r@.argument =~= seq![key@]);
    r
}

/// The request that takes the value of `key` away.
pub fn remove_request(key: String) -> (r: KvsCmdRequest)
    ensures
        r@ == (RequestView { cmd: "REMOVE"@, argument: seq![key@] }),
{
    let mut argument: Vec<String> = Vec::new();
    argument.push(key);
    let r = KvsCmdRequest { cmd: String::from_str("REMOVE"), argument };
    assert(r@.argument =~= seq![key@]);
    r
}

/// The request that asks the server to stop.
pub fn terminate_request() -> (r: KvsCmdRequest)
    ensures
        r@ == (RequestView { cmd: "KILL"@, argument: Seq::<Seq<char>>::empty() }),
{
    let r = KvsCmdRequest { cmd: String::from_str("KILL"), argument: Vec::new() };
    assert(r@.argument =~= Seq::<Seq<char>>::empty());
    r
}

/// What a reply means for a call that speaks of `key` and expects no
/// value: success, `KeyNotExist` with the key where the server found none,
/// `ServerError` for every other status.
pub fn change_outcome(reply: &KvsServerReply, key: String) -> (r: Result<(), KvsError>)
    ensures
        match reply.status {
            KvsServerReplyStatus::Success => r is Ok,
            KvsServerReplyStatus::KeyNotFound => r is Err && r->Err_0@ == KvsErrorView::KeyNotExist(key@),
            _ => r is Err && r->Err_0@ == KvsErrorView::ServerError,
        },
{
    match reply.status {
        KvsServerReplyStatus::Success => Ok(()),
        KvsServerReplyStatus::KeyNotFound => Err(KvsError::KeyNotExist(key)),
        _ => Err(KvsError::ServerError),
    }
}

/// What a reply means for a call that asks for the value of `key`: the
/// value that the reply holds, `KeyNotExist` with the key where the server
/// found none, `ServerError` for every other status.
pub fn get_outcome(reply: KvsServerReply, key: String) -> (r: Result<Option<String>, KvsError>)
    ensures
        match reply.status {
            KvsServerReplyStatus::Success => r is Ok && text_of(r->Ok_0) == text_of(reply.result),
            KvsServerReplyStatus::KeyNotFound => r is Err && r->Err_0@ == KvsErrorView::KeyNotExist(key@),
            _ => r is Err && r->Err_0@ == KvsErrorView::ServerError,
        },
{
    match reply.status {
        KvsServerReplyStatus::Success => Ok(reply.result),
        KvsServerReplyStatus::KeyNotFound => Err(KvsError::KeyNotExist(key)),
        _ => Err(KvsError::ServerError),
    }
}

/// What a reply means for the call that asks the server to stop: success,
/// or `ServerError` for every other status.
pub fn terminate_outcome(reply: &KvsServerReply) -> (r: Result<(), KvsError>)
    ensures
        match reply.status {
            KvsServerReplyStatus::Success => r is Ok,
            _ => r is Err && r->Err_0@ == KvsErrorView::ServerError,
        },
{
    match reply.status {
        KvsServerReplyStatus::Success => Ok(()),
        _ => Err(KvsError::ServerError),
    }
}

/// Reads what the server sent as a reply. `DeserializationError` where the
/// bytes are no reply.
pub fn read_reply(bytes: &[u8]) -> (r: Result<KvsServerReply, KvsError>)
    ensures
        match r {
            Ok(reply) => crate::protocol::reply_of(bytes@) == Some(reply@),
            Err(e) => e@ == KvsErrorView::DeserializationError && crate::protocol::reply_of(bytes@).is_none(),
        },
{
    match KvsServerReply::decode(bytes) {
        Some(reply) => Ok(reply),
        None => Err(KvsError::DeserializationError),
    }
}

/// Writes a request to be sent. `SerializationError` where it cannot be written.
pub fn write_request(request: &KvsCmdRequest) -> (r: Result<Vec<u8>, KvsError>)
    ensures
        match r {
            Ok(bytes) => crate::protocol::request_of(bytes@) == Some(request@),
            Err(e) => e@ == KvsErrorView::SerializationError && !crate::codec::encodes(
                crate::protocol::request_fields(request@),
            ),
        },
{
    match request.encode() {
        Some(bytes) => Ok(bytes),
        None => Err(KvsError::SerializationError),
    }
}

} // verus!
