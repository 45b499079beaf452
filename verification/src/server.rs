//! The server's side of the protocol: one request is read, run against the
//! engine, and answered.

use vstd::prelude::*;
use vstd::string::*;
use crate::engine::{EngineKind, KvsEngine, named_engine};
use crate::errors::{KvsError, KvsErrorView};
use crate::protocol::{KvsCmdRequest, KvsServerReply, KvsServerReplyStatus, ReplyView, RequestView};
use crate::protocol::{reply_of, request_of, text_of};
use crate::text::{decimal_text, lowercase_text};

verus! {

/// The number of bytes of a request that the server reads at most.
pub const REQUEST_BUFFER: usize = 4096;

/// A server: the engine that it runs requests against, and whether it was
/// asked to stop.
pub struct KvsServer<E: KvsEngine> {
    store: E,
    need_termination: bool,
}

/// The number of arguments that a command takes: `None` where the name is
/// no command.
pub open spec fn arity(cmd: Seq<char>) -> Option<nat> {
    if cmd == "GET"@ || cmd == "RM"@ || cmd == "REMOVE"@ || cmd == "DELETE"@ {
        Some(1)
    } else if cmd == "SET"@ {
        Some(2)
    } else if cmd == "KILL"@ {
        Some(0)
    } else {
        None
    }
}

/// What the server says of a command that was given the wrong number of arguments.
pub open spec fn arity_message(cmd: Seq<char>, required: nat, provided: nat) -> Seq<char> {
    "`"@ + cmd + "` command required "@ + decimal_text(required) + " argument, provided "@ + decimal_text(provided)
}

/// The status with which a change to the store is answered: success, a
/// missing key, or an error inside the server.
pub open spec fn change_status(r: Result<(), KvsError>) -> KvsServerReplyStatus {
    match r {
        Ok(()) => KvsServerReplyStatus::Success,
        Err(KvsError::KeyNotExist(_)) => KvsServerReplyStatus::KeyNotFound,
        Err(_) => KvsServerReplyStatus::ServerInternalError,
    }
}

/// The reply to a change to the store.
pub fn change_reply(r: &Result<(), KvsError>) -> (reply: KvsServerReply)
    ensures
        reply@ == (ReplyView { result: None, status: change_status(*r) }),
{
    let status = match r {
        Ok(()) => KvsServerReplyStatus::Success,
        Err(KvsError::KeyNotExist(_)) => KvsServerReplyStatus::KeyNotFound,
        Err(_) => KvsServerReplyStatus::ServerInternalError,
    };
    KvsServerReply { result: None, status }
}

/// The reply to a read of the store: the value, where there is one.
pub fn read_reply(value: Option<String>) -> (reply: KvsServerReply)
    ensures
        reply@ == (ReplyView { result: text_of(value), status: KvsServerReplyStatus::Success }),
{
    KvsServerReply { result: value, status: KvsServerReplyStatus::Success }
}

/// The reply to a command that was given the wrong number of arguments.
pub fn arity_reply(cmd: &str, required: usize, provided: usize) -> (reply: KvsServerReply)
    ensures
        reply@ == (ReplyView {
            result: Some(arity_message(cmd@, required as nat, provided as nat)),
            status: KvsServerReplyStatus::InvalidArguments,
        }),
{
    let mut text = String::from_str("`");
    text.append(cmd);
    text.append("` command required ");
    text.append(crate::text::decimal(required as u64).as_str());
    text.append(" argument, provided ");
    text.append(crate::text::decimal(provided as u64).as_str());
    KvsServerReply { result: Some(text), status: KvsServerReplyStatus::InvalidArguments }
}

/// The number of arguments that a command takes.
pub fn command_arity(cmd: &str) -> (r: Option<usize>)
    ensures
        match r {
            Some(n) => arity(cmd@) == Some(n as nat),
            None => arity(cmd@).is_none(),
        },
{
    if crate::text::same_str(cmd, "GET") || crate::text::same_str(cmd, "RM") || crate::text::same_str(cmd, "REMOVE")
        || crate::text::same_str(cmd, "DELETE") {
        Some(1)
    } else if crate::text::same_str(cmd, "SET") {
        Some(2)
    } else if crate::text::same_str(cmd, "KILL") {
        Some(0)
    } else {
        None
    }
}

impl<E: KvsEngine> KvsServer<E> {
    /// The engine.
    pub closed spec fn engine(&self) -> E {
        self.store
    }

    /// Whether the server was asked to stop.
    pub closed spec fn stopping(&self) -> bool {
        self.need_termination
    }

    /// The server is in order.
    pub open spec fn wf(&self) -> bool {
        self.engine().inv()
    }

    /// Whether the server was asked to stop.
    pub fn need_termination(&self) -> (r: bool)
        ensures
            r == self.stopping(),
    {
        self.need_termination
    }

    /// The engine.
    pub fn store(&self) -> (r: &E)
        ensures
            *r == self.engine(),
    {
        &self.store
    }

    /// Hands the engine out, to be closed.
    pub fn into_store(self) -> (r: E)
        ensures
            r == self.engine(),
    {
        self.store
    }

    /// What opening a server with the engine named `engine_type` comes to.
    ///
    /// `UnsupportedEngine` where the name, in lower case, is no engine's,
    /// or not that of `E`. Else the engine is opened from `source`: its
    /// error is handed on, and where it opens the server holds it and was
    /// not asked to stop.
    pub open spec fn opened(engine_type: Seq<char>, source: E::Source, r: Result<KvsServer<E>, KvsError>) -> bool {
        let named = named_engine(lowercase_text(engine_type));
        if named.is_none() || (E::kind_spec().is_some() && named != E::kind_spec()) {
            r is Err && r->Err_0@ == KvsErrorView::UnsupportedEngine
        } else {
            match r {
                Ok(server) => E::opens(source, Ok(server.engine())) && server.wf() && !server.stopping(),
                Err(e) => E::opens(source, Err(e)) || (E::kind_spec().is_none() && e@
                    == KvsErrorView::UnsupportedEngine),
            }
        }
    }

    /// Opens a server with the engine of the given name, whatever the case
    /// of its letters: see `opened`.
    pub fn open(engine_type: &str, source: E::Source) -> (r: Result<KvsServer<E>, KvsError>)
        ensures
            KvsServer::<E>::opened(engine_type@, source, r),
    {
        match EngineKind::from_name(engine_type) {
            Some(kind) => if kind != E::kind() {
                return Err(KvsError::UnsupportedEngine);
            },
            None => {
                return Err(KvsError::UnsupportedEngine);
            },
        }
        match E::open(source) {
            Ok(store) => Ok(KvsServer { store, need_termination: false }),
            Err(e) => Err(e),
        }
    }

    /// What running a request comes to.
    ///
    /// A name that is no command is answered with `InvalidCommand`, a wrong
    /// number of arguments with `InvalidArguments` and a text that says so;
    /// neither changes anything. `KILL` asks the server to stop. `GET`
    /// reads the key: the value is answered, where there is one; where the
    /// engine fails, its error is handed on and nothing is answered. `SET`
    /// gives the key the value, `RM`, `REMOVE` and `DELETE` remove the key:
    /// what the engine gives is answered with its status, see `change_status`.
    pub open spec fn executed(&self, before: &KvsServer<E>, q: RequestView, r: Result<KvsServerReply, KvsError>) -> bool {
        match arity(q.cmd) {
            None => {
                &&& r is Ok
                &&& r->Ok_0@ == (ReplyView { result: None, status: KvsServerReplyStatus::InvalidCommand })
                &&& *self == *before
            },
            Some(n) => if q.argument.len() != n {
                &&& r is Ok
                &&& r->Ok_0@ == (ReplyView {
                    result: Some(arity_message(q.cmd, n, q.argument.len())),
                    status: KvsServerReplyStatus::InvalidArguments,
                })
                &&& *self == *before
            } else if n == 0 {
                &&& r is Ok
                &&& r->Ok_0@ == (ReplyView { result: None, status: KvsServerReplyStatus::Success })
                &&& self.engine() == before.engine()
                &&& self.stopping()
            } else if q.cmd == "GET"@ {
                &&& *self == *before
                &&& match r {
                    Ok(reply) => exists|value: Option<String>|
                        #![auto]
                        self.engine().gets(q.argument[0], Ok(value)) && reply@ == (ReplyView {
                            result: text_of(value),
                            status: KvsServerReplyStatus::Success,
                        }),
                    Err(e) => self.engine().gets(q.argument[0], Err(e)),
                }
            } else if n == 2 {
                &&& self.stopping() == before.stopping()
                &&& r is Ok
                &&& exists|outcome: Result<(), KvsError>|
                    #![auto]
                    self.engine().sets(&before.engine(), q.argument[0], q.argument[1], outcome) && r->Ok_0@ == (
                    ReplyView { result: None, status: change_status(outcome) })
            } else {
                &&& self.stopping() == before.stopping()
                &&& r is Ok
                &&& exists|outcome: Result<(), KvsError>|
                    #![auto]
                    self.engine().removes(&before.engine(), q.argument[0], outcome) && r->Ok_0@ == (ReplyView {
                        result: None,
                        status: change_status(outcome),
                    })
            },
        }
    }

    /// Runs a request against the engine and says what to answer: see `executed`.
    pub fn execute(&mut self, request: &KvsCmdRequest) -> (r: Result<KvsServerReply, KvsError>)
        requires
            old(self).wf(),
        ensures
            final(self).wf(),
            final(self).executed(old(self), request@, r),
    {
        let provided: usize = request.argument.len();
        let required: usize = match command_arity(request.cmd.as_str()) {
            Some(n) => n,
            None => {
                return Ok(KvsServerReply { result: None, status: KvsServerReplyStatus::InvalidCommand });
            },
        };
        if provided != required {
            return Ok(arity_reply(request.cmd.as_str(), required, provided));
        }
        if required == 0 {
            self.need_termination = true;
            Ok(KvsServerReply { result: None, status: KvsServerReplyStatus::Success })
        } else if required == 2 {
            let outcome = self.store.set(request.argument[0].clone(), request.argument[1].clone());
            let reply = change_reply(&outcome);
            assert(self.engine().sets(&old(self).engine(), request@.argument[0], request@.argument[1], outcome)
                && reply@ == (ReplyView { result: None, status: change_status(outcome) }));
            Ok(reply)
        } else if crate::text::same_str(request.cmd.as_str(), "GET") {
            match self.store.get(request.argument[0].clone()) {
                Ok(value) => {
                    let reply = read_reply(value);
                    Ok(reply)
                },
                Err(e) => Err(e),
            }
        } else {
            let outcome = self.store.remove(request.argument[0].clone());
            let reply = change_reply(&outcome);
            assert(self.engine().removes(&old(self).engine(), request@.argument[0], outcome) && reply@ == (
            ReplyView { result: None, status: change_status(outcome) }));
            Ok(reply)
        }
    }

    /// Handles what was read from a connection: reads it as a request, runs
    /// it, and hands out the bytes of the reply. Nothing is answered where
    /// the bytes are no request. `SerializationError` where the reply
    /// cannot be written.
    pub fn handle_stream(&mut self, bytes: &[u8]) -> (r: Result<Option<Vec<u8>>, KvsError>)
        requires
            old(self).wf(),
        ensures
            final(self).wf(),
            match request_of(bytes@) {
                None => r is Ok && r->Ok_0.is_none() && *final(self) == *old(self),
                Some(q) => match r {
                    Ok(Some(out)) => exists|reply: KvsServerReply|
                        final(self).executed(old(self), q, Ok(reply)) && reply_of(out@) == Some(reply@),
                    Ok(None) => false,
                    Err(e) => final(self).executed(old(self), q, Err(e)) || (e@ == KvsErrorView::SerializationError
                        && exists|reply: KvsServerReply| final(self).executed(old(self), q, Ok(reply))),
                },
            },
    {
        let request = match KvsCmdRequest::decode(bytes) {
            Some(request) => request,
            None => {
                return Ok(None);
            },
        };
        let reply = match self.execute(&request) {
            Ok(reply) => reply,
            Err(e) => {
                return Err(e);
            },
        };
        match reply.encode() {
            Some(out) => Ok(Some(out)),
            None => Err(KvsError::SerializationError),
        }
    }
}

} // verus!
