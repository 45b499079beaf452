//! The messages between client and server: one request and one reply per
//! connection, each one document.

use vstd::prelude::*;
use vstd::string::*;
use crate::codec::{Field, FieldView, Value, ValueView};
use crate::codec::{bson_document, document_of, encodes, field_value, fields_view, texts_view};

verus! {

/// A request: the name of a command and its arguments.
#[derive(Debug)]
pub struct KvsCmdRequest {
    pub cmd: String,
    pub argument: Vec<String>,
}

/// What a request is, mathematically.
pub struct RequestView {
    pub cmd: Seq<char>,
    pub argument: Seq<Seq<char>>,
}

impl View for KvsCmdRequest {
    type V = RequestView;

    open spec fn view(&self) -> RequestView {
        RequestView { cmd: self.cmd@, argument: texts_view(self.argument@) }
    }
}

/// How a request ended.
#[derive(Debug, Clone, Copy, PartialEq, Eq, Structural)]
pub enum KvsServerReplyStatus {
    Success,
    InvalidArguments,
    InvalidCommand,
    KeyNotFound,
    ServerInternalError,
}

/// A reply: a text, where there is one to give, and the status.
#[derive(Debug)]
pub struct KvsServerReply {
    pub result: Option<String>,
    pub status: KvsServerReplyStatus,
}

/// What a reply is, mathematically.
pub struct ReplyView {
    pub result: Option<Seq<char>>,
    pub status: KvsServerReplyStatus,
}

/// The text of an optional string.
pub open spec fn text_of(s: Option<String>) -> Option<Seq<char>> {
    match s {
        Some(s) => Some(s@),
        None => None,
    }
}

impl View for KvsServerReply {
    type V = ReplyView;

    open spec fn view(&self) -> ReplyView {
        ReplyView { result: text_of(self.result), status: self.status }
    }
}

/// The document of a request: the command and the array of arguments under
/// their names.
pub open spec fn request_fields(q: RequestView) -> Seq<FieldView> {
    seq![
        FieldView { name: "cmd"@, value: ValueView::Text(q.cmd) },
        FieldView { name: "argument"@, value: ValueView::Texts(q.argument) },
    ]
}

/// The request that a document is, if it is one.
pub open spec fn fields_request(fields: Seq<FieldView>) -> Option<RequestView> {
    match (field_value(fields, "cmd"@), field_value(fields, "argument"@)) {
        (Some(ValueView::Text(cmd)), Some(ValueView::Texts(argument))) => Some(RequestView { cmd, argument }),
        _ => None,
    }
}

/// A request's document is read as that request.
pub proof fn lemma_request_fields(q: RequestView)
    ensures
        fields_request(request_fields(q)) == Some(q),
{
    reveal_strlit("cmd");
    reveal_strlit("argument");
    assert("cmd"@.len() == 3 && "argument"@.len() == 8);
    reveal_with_fuel(crate::codec::find_from, 3);
}

/// The name under which a status is written.
pub open spec fn status_name(status: KvsServerReplyStatus) -> Seq<char> {
    match status {
        KvsServerReplyStatus::Success => "Success"@,
        KvsServerReplyStatus::InvalidArguments => "InvalidArguments"@,
        KvsServerReplyStatus::InvalidCommand => "InvalidCommand"@,
        KvsServerReplyStatus::KeyNotFound => "KeyNotFound"@,
        KvsServerReplyStatus::ServerInternalError => "ServerInternalError"@,
    }
}

/// The status that a name stands for.
pub open spec fn named_status(name: Seq<char>) -> Option<KvsServerReplyStatus> {
    if name == "Success"@ {
        Some(KvsServerReplyStatus::Success)
    } else if name == "InvalidArguments"@ {
        Some(KvsServerReplyStatus::InvalidArguments)
    } else if name == "InvalidCommand"@ {
        Some(KvsServerReplyStatus::InvalidCommand)
    } else if name == "KeyNotFound"@ {
        Some(KvsServerReplyStatus::KeyNotFound)
    } else if name == "ServerInternalError"@ {
        Some(KvsServerReplyStatus::ServerInternalError)
    } else {
        None
    }
}

/// A status is read back from its name.
pub proof fn lemma_status_name(status: KvsServerReplyStatus)
    ensures
        named_status(status_name(status)) == Some(status),
{
    reveal_strlit("Success");
    reveal_strlit("InvalidArguments");
    reveal_strlit("InvalidCommand");
    reveal_strlit("KeyNotFound");
    reveal_strlit("ServerInternalError");
    assert("Success"@.len() == 7 && "InvalidArguments"@.len() == 16 && "InvalidCommand"@.len() == 14
        && "KeyNotFound"@.len() == 11 && "ServerInternalError"@.len() == 19);
}

/// The document of a reply: the text, or null where there is none, and the
/// name of the status, each under its name.
pub open spec fn reply_fields(p: ReplyView) -> Seq<FieldView> {
    seq![
        FieldView {
            name: "result"@,
            value: match p.result {
                Some(s) => ValueView::Text(s),
                None => ValueView::Null,
            },
        },
        FieldView { name: "status"@, value: ValueView::Text(status_name(p.status)) },
    ]
}

/// The text of a reply's document: none where the element is missing or null.
pub open spec fn fields_result(fields: Seq<FieldView>) -> Option<Option<Seq<char>>> {
    match field_value(fields, "result"@) {
        None => Some(None),
        Some(ValueView::Null) => Some(None),
        Some(ValueView::Text(s)) => Some(Some(s)),
        _ => None,
    }
}

/// The reply that a document is, if it is one.
pub open spec fn fields_reply(fields: Seq<FieldView>) -> Option<ReplyView> {
    match (fields_result(fields), field_value(fields, "status"@)) {
        (Some(result), Some(ValueView::Text(name))) => match named_status(name) {
            Some(status) => Some(ReplyView { result, status }),
            None => None,
        },
        _ => None,
    }
}

/// A reply's document is read as that reply.
pub proof fn lemma_reply_fields(p: ReplyView)
    ensures
        fields_reply(reply_fields(p)) == Some(p),
{
    reveal_strlit("result");
    reveal_strlit("status");
    assert("result"@[2] == 's' && "status"@[2] == 'a');
    reveal_with_fuel(crate::codec::find_from, 3);
    lemma_status_name(p.status);
}

/// The request that `bytes` are.
pub open spec fn request_of(bytes: Seq<u8>) -> Option<RequestView> {
    match document_of(bytes) {
        Some(fields) => fields_request(fields),
        None => None,
    }
}

/// The reply that `bytes` are.
pub open spec fn reply_of(bytes: Seq<u8>) -> Option<ReplyView> {
    match document_of(bytes) {
        Some(fields) => fields_reply(fields),
        None => None,
    }
}

impl KvsServerReplyStatus {
    /// The name under which the status is written.
    pub fn name(&self) -> (r: &'static str)
        ensures
            r@ == status_name(*self),
    {
        match self {
            KvsServerReplyStatus::Success => "Success",
            KvsServerReplyStatus::InvalidArguments => "InvalidArguments",
            KvsServerReplyStatus::InvalidCommand => "InvalidCommand",
            KvsServerReplyStatus::KeyNotFound => "KeyNotFound",
            KvsServerReplyStatus::ServerInternalError => "ServerInternalError",
        }
    }

    /// The status that a name stands for.
    pub fn from_name(name: &str) -> (r: Option<KvsServerReplyStatus>)
        ensures
            r == named_status(name@),
    {
        if crate::text::same_str(name, "Success") {
            Some(KvsServerReplyStatus::Success)
        } else if crate::text::same_str(name, "InvalidArguments") {
            Some(KvsServerReplyStatus::InvalidArguments)
        } else if crate::text::same_str(name, "InvalidCommand") {
            Some(KvsServerReplyStatus::InvalidCommand)
        } else if crate::text::same_str(name, "KeyNotFound") {
            Some(KvsServerReplyStatus::KeyNotFound)
        } else if crate::text::same_str(name, "ServerInternalError") {
            Some(KvsServerReplyStatus::ServerInternalError)
        } else {
            None
        }
    }
}

fn clone_texts(list: &Vec<String>) -> (r: Vec<String>)
    ensures
        texts_view(r@) == texts_view(list@),
{
    let mut out: Vec<String> = Vec::new();
    let mut i: usize = 0;
    while i < list.len()
        invariant
            i <= list.len(),
            out@.len() == i,
            forall|j: int| 0 <= j < i ==> out@[j]@ == list@[j]@,
        decreases list.len() - i,
    {
        out.push(list[i].clone());
        i += 1;
    }
    out
}

impl KvsCmdRequest {
    /// Lays the request out as a document.
    pub fn to_fields(&self) -> (r: Vec<Field>)
        ensures
            fields_view(r@) == request_fields(self@),
    {
        let mut out: Vec<Field> = Vec::new();
        out.push(Field { name: String::from_str("cmd"), value: Value::Text(self.cmd.clone()) });
        out.push(Field { name: String::from_str("argument"), value: Value::Texts(clone_texts(&self.argument)) });
        out
    }

    /// Reads a document as a request.
    pub fn from_fields(fields: &Vec<Field>) -> (r: Option<KvsCmdRequest>)
        ensures
            match r {
                Some(q) => fields_request(fields_view(fields@)) == Some(q@),
                None => fields_request(fields_view(fields@)).is_none(),
            },
    {
        let cmd = crate::codec::find_field(fields, "cmd");
        let argument = crate::codec::find_field(fields, "argument");
        match (cmd, argument) {
            (Some(Value::Text(cmd)), Some(Value::Texts(argument))) => Some(
                KvsCmdRequest { cmd: cmd.clone(), argument: clone_texts(argument) },
            ),
            _ => None,
        }
    }

    /// Writes the request as one document. `None` where it cannot be
    /// written so that it reads back.
    pub fn encode(&self) -> (r: Option<Vec<u8>>)
        ensures
            match r {
                Some(bytes) => encodes(request_fields(self@)) && bytes@ == bson_document(request_fields(self@))
                    && request_of(bytes@) == Some(self@),
                None => !encodes(request_fields(self@)),
            },
    {
        proof {
            lemma_request_fields(self@);
        }
        let fields = self.to_fields();
        crate::codec::encode(&fields)
    }

    /// Reads the request that `bytes` are.
    pub fn decode(bytes: &[u8]) -> (r: Option<KvsCmdRequest>)
        ensures
            match r {
                Some(q) => request_of(bytes@) == Some(q@),
                None => request_of(bytes@).is_none(),
            },
    {
        match crate::codec::decode(bytes) {
            Some(fields) => KvsCmdRequest::from_fields(&fields),
            None => None,
        }
    }
}

impl KvsServerReply {
    /// Lays the reply out as a document.
    pub fn to_fields(&self) -> (r: Vec<Field>)
        ensures
            fields_view(r@) == reply_fields(self@),
    {
        let mut out: Vec<Field> = Vec::new();
        let result = match &self.result {
            Some(s) => Value::Text(s.clone()),
            None => Value::Null,
        };
        out.push(Field { name: String::from_str("result"), value: result });
        out.push(Field { name: String::from_str("status"), value: Value::Text(String::from_str(self.status.name())) });
        out
    }

    /// Reads a document as a reply.
    pub fn from_fields(fields: &Vec<Field>) -> (r: Option<KvsServerReply>)
        ensures
            match r {
                Some(p) => fields_reply(fields_view(fields@)) == Some(p@),
                None => fields_reply(fields_view(fields@)).is_none(),
            },
    {
        let result: Option<String> = match crate::codec::find_field(fields, "result") {
            None => None,
            Some(Value::Null) => None,
            Some(Value::Text(s)) => Some(s.clone()),
            _ => {
                return None;
            },
        };
        match crate::codec::find_field(fields, "status") {
            Some(Value::Text(name)) => match KvsServerReplyStatus::from_name(name.as_str()) {
                Some(status) => Some(KvsServerReply { result, status }),
                None => None,
            },
            _ => None,
        }
    }

    /// Writes the reply as one document. `None` where it cannot be written
    /// so that it reads back.
    pub fn encode(&self) -> (r: Option<Vec<u8>>)
        ensures
            match r {
                Some(bytes) => encodes(reply_fields(self@)) && bytes@ == bson_document(reply_fields(self@))
                    && reply_of(bytes@) == Some(self@),
                None => !encodes(reply_fields(self@)),
            },
    {
        proof {
            lemma_reply_fields(self@);
        }
        let fields = self.to_fields();
        crate::codec::encode(&fields)
    }

    /// Reads the reply that `bytes` are.
    pub fn decode(bytes: &[u8]) -> (r: Option<KvsServerReply>)
        ensures
            match r {
                Some(p) => reply_of(bytes@) == Some(p@),
                None => reply_of(bytes@).is_none(),
            },
    {
        match crate::codec::decode(bytes) {
            Some(fields) => KvsServerReply::from_fields(&fields),
            None => None,
        }
    }
}

} // verus!
