//! The records of the data file and of the index file, and how each is laid
//! out as a document.

use vstd::prelude::*;
use vstd::string::*;
use crate::codec::{Field, FieldView, Value, ValueView};
use crate::codec::{fields_view, texts_view, field_value, value_u64, value_text};
use crate::codec::{document_at, encodes, bson_document};
use crate::errors::{KvsError, KvsErrorView};

verus! {

/// A record of the data file.
#[derive(Debug)]
pub enum KvsEntries {
    /// The key has this value from here on.
    SET(String, String),
    /// The key has no value from here on.
    DELETE(String),
}

/// What a data record is, mathematically.
pub enum EntryView {
    SET(Seq<char>, Seq<char>),
    DELETE(Seq<char>),
}

impl View for KvsEntries {
    type V = EntryView;

    open spec fn view(&self) -> EntryView {
        match self {
            KvsEntries::SET(k, v) => EntryView::SET(k@, v@),
            KvsEntries::DELETE(k) => EntryView::DELETE(k@),
        }
    }
}

impl EntryView {
    /// The key that the record speaks of.
    pub open spec fn key(self) -> Seq<char> {
        match self {
            EntryView::SET(k, _) => k,
            EntryView::DELETE(k) => k,
        }
    }
}

/// The document of a data record: one element, named after the kind of
/// record. A `SET` holds the array of key and value, a `DELETE` the key.
pub open spec fn entry_fields(e: EntryView) -> Seq<FieldView> {
    match e {
        EntryView::SET(k, v) => seq![FieldView { name: "SET"@, value: ValueView::Texts(seq![k, v]) }],
        EntryView::DELETE(k) => seq![FieldView { name: "DELETE"@, value: ValueView::Text(k) }],
    }
}

/// The data record that a document is, if it is one.
pub open spec fn fields_entry(fields: Seq<FieldView>) -> Option<EntryView> {
    if fields.len() != 1 {
        None
    } else if fields[0].name == "SET"@ {
        match fields[0].value {
            ValueView::Texts(list) => if list.len() == 2 {
                Some(EntryView::SET(list[0], list[1]))
            } else {
                None
            },
            _ => None,
        }
    } else if fields[0].name == "DELETE"@ {
        match fields[0].value {
            ValueView::Text(k) => Some(EntryView::DELETE(k)),
            _ => None,
        }
    } else {
        None
    }
}

/// A data record's document is read as that record.
pub proof fn lemma_entry_fields(e: EntryView)
    ensures
        fields_entry(entry_fields(e)) == Some(e),
{
    reveal_strlit("SET");
    reveal_strlit("DELETE");
    assert("SET"@.len() != "DELETE"@.len());
}

/// The data record framed at `at` in `log`, and the length of its frame.
pub open spec fn entry_at(log: Seq<u8>, at: int) -> Option<(EntryView, int)> {
    match document_at(log, at) {
        Some((fields, n)) => match fields_entry(fields) {
            Some(e) => Some((e, n)),
            None => None,
        },
        None => None,
    }
}

/// The bytes of a data record.
pub open spec fn entry_bytes(e: EntryView) -> Seq<u8> {
    bson_document(entry_fields(e))
}

impl KvsEntries {
    /// The key that the record speaks of.
    pub fn key(&self) -> (r: &String)
        ensures
            r@ == self@.key(),
    {
        match self {
            KvsEntries::SET(k, _) => k,
            KvsEntries::DELETE(k) => k,
        }
    }

    /// Lays the record out as a document.
    pub fn to_fields(&self) -> (r: Vec<Field>)
        ensures
            fields_view(r@) == entry_fields(self@),
    {
        let mut out: Vec<Field> = Vec::new();
        match self {
            KvsEntries::SET(k, v) => {
                let mut list: Vec<String> = Vec::new();
                list.push(k.clone());
                list.push(v.clone());
                assert(texts_view(list@) =~= seq![k@, v@]);
                out.push(Field { name: String::from_str("SET"), value: Value::Texts(list) });
            },
            KvsEntries::DELETE(k) => {
                out.push(Field { name: String::from_str("DELETE"), value: Value::Text(k.clone()) });
            },
        }
        out
    }

    /// Reads a document as a data record.
    pub fn from_fields(fields: &Vec<Field>) -> (r: Option<KvsEntries>)
        ensures
            match r {
                Some(e) => fields_entry(fields_view(fields@)) == Some(e@),
                None => fields_entry(fields_view(fields@)).is_none(),
            },
    {
        if fields.len() != 1 {
            return None;
        }
        let f = &fields[0];
        if crate::text::same_str(f.name.as_str(), "SET") {
            match &f.value {
                Value::Texts(list) => if list.len() == 2 {
                    Some(KvsEntries::SET(list[0].clone(), list[1].clone()))
                } else {
                    None
                },
                _ => None,
            }
        } else if crate::text::same_str(f.name.as_str(), "DELETE") {
            match &f.value {
                Value::Text(k) => Some(KvsEntries::DELETE(k.clone())),
                _ => None,
            }
        } else {
            None
        }
    }

    /// Writes the record as one frame. `None` where the record cannot be
    /// written so that it reads back.
    pub fn encode(&self) -> (r: Option<Vec<u8>>)
        ensures
            match r {
                Some(bytes) => encodes(entry_fields(self@)) && bytes@ == entry_bytes(self@),
                None => !encodes(entry_fields(self@)),
            },
    {
        let fields = self.to_fields();
        crate::codec::encode(&fields)
    }

    /// Reads on in a data file from `at`: the record framed there and the
    /// length of its frame, or `None` at the end of the file. What is
    /// neither is a `DeserializationError`.
    pub fn read_at(log: &[u8], at: usize) -> (r: Result<Option<(KvsEntries, usize)>, KvsError>)
        ensures
            match r {
                Ok(Some((e, n))) => entry_at(log@, at as int) == Some((e@, n as int)),
                Ok(None) => at == log@.len() && entry_at(log@, at as int).is_none(),
                Err(e) => e@ == KvsErrorView::DeserializationError && at != log@.len() && entry_at(
                    log@,
                    at as int,
                ).is_none(),
            },
    {
        match KvsEntries::decode_at(log, at) {
            Some(found) => Ok(Some(found)),
            None => if at == log.len() {
                Ok(None)
            } else {
                Err(KvsError::DeserializationError)
            },
        }
    }

    /// Reads the data record framed at `at` in `log`; hands out the record
    /// and the length of its frame.
    pub fn decode_at(log: &[u8], at: usize) -> (r: Option<(KvsEntries, usize)>)
        ensures
            match r {
                Some((e, n)) => entry_at(log@, at as int) == Some((e@, n as int)),
                None => entry_at(log@, at as int).is_none(),
            },
    {
        match crate::codec::decode_at(log, at) {
            Some((fields, n)) => match KvsEntries::from_fields(&fields) {
                Some(e) => Some((e, n)),
                None => None,
            },
            None => None,
        }
    }
}

/// The number of the element named `name`, read as an unsigned 64-bit integer.
pub open spec fn field_u64(fields: Seq<FieldView>, name: Seq<char>) -> Option<u64> {
    match field_value(fields, name) {
        Some(v) => value_u64(v),
        None => None,
    }
}

/// The text of the element named `name`.
pub open spec fn field_text(fields: Seq<FieldView>, name: Seq<char>) -> Option<Seq<char>> {
    match field_value(fields, name) {
        Some(v) => value_text(v),
        None => None,
    }
}

fn get_u64(fields: &Vec<Field>, name: &str) -> (r: Option<u64>)
    ensures
        r == field_u64(fields_view(fields@), name@),
{
    match crate::codec::find_field(fields, name) {
        Some(v) => crate::codec::as_u64(v),
        None => None,
    }
}

fn get_text<'a>(fields: &'a Vec<Field>, name: &str) -> (r: Option<&'a String>)
    ensures
        match r {
            Some(s) => field_text(fields_view(fields@), name@) == Some(s@),
            None => field_text(fields_view(fields@), name@).is_none(),
        },
{
    match crate::codec::find_field(fields, name) {
        Some(v) => crate::codec::as_text(v),
        None => None,
    }
}

/// The largest number that a document can hold in a 64-bit element.
pub const MAX_NUMBER: u64 = 0x7fff_ffff_ffff_ffff;

/// The header of the data file: the first record, at offset 0.
#[derive(Debug, Clone, Copy, PartialEq, Eq, Structural)]
pub struct KvHeader {
    /// The version of the file format.
    pub build_number: u64,
    /// When the file was last opened, in milliseconds since the epoch.
    pub last_open: u64,
    /// The size of the data file, in bytes, at which the log is compacted.
    pub next_compaction_size: u64,
    /// Bit 0 is set while a session is open: see `SESSION_DIRTY`.
    pub flags: u64,
}

/// The bit of `flags` that is set on open and cleared on a clean close.
pub const SESSION_DIRTY: u64 = 0x1;

/// Whether the session-dirty bit is set in `flags`.
pub open spec fn dirty(flags: u64) -> bool {
    flags & SESSION_DIRTY == SESSION_DIRTY
}

/// Every number of the header can be held by a 64-bit element.
pub open spec fn header_fits(h: KvHeader) -> bool {
    h.build_number <= MAX_NUMBER && h.last_open <= MAX_NUMBER && h.next_compaction_size <= MAX_NUMBER
        && h.flags <= MAX_NUMBER
}

/// The document of a header: its four numbers under their names.
pub open spec fn header_fields(h: KvHeader) -> Seq<FieldView> {
    seq![
        FieldView { name: "build_number"@, value: ValueView::Int64(h.build_number as i64) },
        FieldView { name: "last_open"@, value: ValueView::Int64(h.last_open as i64) },
        FieldView { name: "next_compaction_size"@, value: ValueView::Int64(h.next_compaction_size as i64) },
        FieldView { name: "flags"@, value: ValueView::Int64(h.flags as i64) },
    ]
}

/// The header that a document is, if it is one: each of the four numbers is
/// found under its name. Other elements are passed over.
pub open spec fn fields_header(fields: Seq<FieldView>) -> Option<KvHeader> {
    match (
        field_u64(fields, "build_number"@),
        field_u64(fields, "last_open"@),
        field_u64(fields, "next_compaction_size"@),
        field_u64(fields, "flags"@),
    ) {
        (Some(b), Some(l), Some(n), Some(f)) => Some(
            KvHeader { build_number: b, last_open: l, next_compaction_size: n, flags: f },
        ),
        _ => None,
    }
}

/// A header's document is read as that header.
pub proof fn lemma_header_fields(h: KvHeader)
    requires
        header_fits(h),
    ensures
        fields_header(header_fields(h)) == Some(h),
{
    reveal_strlit("build_number");
    reveal_strlit("last_open");
    reveal_strlit("next_compaction_size");
    reveal_strlit("flags");
    assert("build_number"@.len() == 12 && "last_open"@.len() == 9 && "next_compaction_size"@.len() == 20
        && "flags"@.len() == 5);
    reveal_with_fuel(crate::codec::find_from, 5);
}

/// The header framed at the start of `log`, and the length of its frame.
pub open spec fn header_at(log: Seq<u8>) -> Option<(KvHeader, int)> {
    match document_at(log, 0) {
        Some((fields, n)) => match fields_header(fields) {
            Some(h) => Some((h, n)),
            None => None,
        },
        None => None,
    }
}

/// The bytes of a header.
pub open spec fn header_bytes(h: KvHeader) -> Seq<u8> {
    bson_document(header_fields(h))
}

/// The header can be written so that it reads back.
pub open spec fn header_encodes(h: KvHeader) -> bool {
    header_fits(h) && encodes(header_fields(h))
}

fn number_field(name: &str, n: u64) -> (r: Field)
    requires
        n <= MAX_NUMBER,
    ensures
        r@ == (FieldView { name: name@, value: ValueView::Int64(n as i64) }),
{
    Field { name: String::from_str(name), value: Value::Int64(n as i64) }
}

impl KvHeader {
    /// Lays the header out as a document.
    fn to_fields(&self) -> (r: Vec<Field>)
        requires
            header_fits(*self),
        ensures
            fields_view(r@) == header_fields(*self),
    {
        let mut out: Vec<Field> = Vec::new();
        out.push(number_field("build_number", self.build_number));
        out.push(number_field("last_open", self.last_open));
        out.push(number_field("next_compaction_size", self.next_compaction_size));
        out.push(number_field("flags", self.flags));
        out
    }

    /// Reads a document as a header.
    pub fn from_fields(fields: &Vec<Field>) -> (r: Option<KvHeader>)
        ensures
            r == fields_header(fields_view(fields@)),
    {
        let b = get_u64(fields, "build_number");
        let l = get_u64(fields, "last_open");
        let n = get_u64(fields, "next_compaction_size");
        let f = get_u64(fields, "flags");
        match (b, l, n, f) {
            (Some(b), Some(l), Some(n), Some(f)) => Some(
                KvHeader { build_number: b, last_open: l, next_compaction_size: n, flags: f },
            ),
            _ => None,
        }
    }

    /// Whether every number of the header can be written.
    pub fn fits(&self) -> (r: bool)
        ensures
            r == header_fits(*self),
    {
        self.build_number <= MAX_NUMBER && self.last_open <= MAX_NUMBER && self.next_compaction_size
            <= MAX_NUMBER && self.flags <= MAX_NUMBER
    }

    /// Writes the header as one frame. `None` where a number is too large,
    /// or the header cannot be written so that it reads back.
    pub fn encode(&self) -> (r: Option<Vec<u8>>)
        ensures
            match r {
                Some(bytes) => header_encodes(*self) && bytes@ == header_bytes(*self),
                None => !header_encodes(*self),
            },
    {
        if !self.fits() {
            return None;
        }
        let fields = self.to_fields();
        crate::codec::encode(&fields)
    }

    /// Reads the header framed at the start of `log`; hands out the header
    /// and the length of its frame.
    pub fn decode(log: &[u8]) -> (r: Option<(KvHeader, usize)>)
        ensures
            match r {
                Some((h, n)) => header_at(log@) == Some((h, n as int)),
                None => header_at(log@).is_none(),
            },
    {
        match crate::codec::decode_at(log, 0) {
            Some((fields, n)) => match KvHeader::from_fields(&fields) {
                Some(h) => Some((h, n)),
                None => None,
            },
            None => None,
        }
    }
}

/// A record of the index file: a key and the offset of its `SET` record in
/// the data file.
#[derive(Debug)]
pub struct KvsIndexEntries {
    pub key: String,
    pub offset: u64,
}

/// What an index record is, mathematically.
pub struct IndexEntryView {
    pub key: Seq<char>,
    pub offset: u64,
}

impl View for KvsIndexEntries {
    type V = IndexEntryView;

    open spec fn view(&self) -> IndexEntryView {
        IndexEntryView { key: self.key@, offset: self.offset }
    }
}

/// The document of an index record: the key and the offset under their names.
pub open spec fn index_entry_fields(e: IndexEntryView) -> Seq<FieldView> {
    seq![
        FieldView { name: "key"@, value: ValueView::Text(e.key) },
        FieldView { name: "offset"@, value: ValueView::Int64(e.offset as i64) },
    ]
}

/// The index record that a document is, if it is one.
pub open spec fn fields_index_entry(fields: Seq<FieldView>) -> Option<IndexEntryView> {
    match (field_text(fields, "key"@), field_u64(fields, "offset"@)) {
        (Some(k), Some(o)) => Some(IndexEntryView { key: k, offset: o }),
        _ => None,
    }
}

/// An index record's document is read as that record.
pub proof fn lemma_index_entry_fields(e: IndexEntryView)
    requires
        e.offset <= MAX_NUMBER,
    ensures
        fields_index_entry(index_entry_fields(e)) == Some(e),
{
    reveal_strlit("key");
    reveal_strlit("offset");
    assert("key"@.len() == 3 && "offset"@.len() == 6);
    reveal_with_fuel(crate::codec::find_from, 3);
}

/// The index record framed at `at` in `file`, and the length of its frame.
pub open spec fn index_entry_at(file: Seq<u8>, at: int) -> Option<(IndexEntryView, int)> {
    match document_at(file, at) {
        Some((fields, n)) => match fields_index_entry(fields) {
            Some(e) => Some((e, n)),
            None => None,
        },
        None => None,
    }
}

/// The bytes of an index record.
pub open spec fn index_entry_bytes(e: IndexEntryView) -> Seq<u8> {
    bson_document(index_entry_fields(e))
}

/// The index record can be written so that it reads back.
pub open spec fn index_entry_encodes(e: IndexEntryView) -> bool {
    e.offset <= MAX_NUMBER && encodes(index_entry_fields(e))
}

impl KvsIndexEntries {
    /// Lays the record out as a document.
    fn to_fields(&self) -> (r: Vec<Field>)
        requires
            self.offset <= MAX_NUMBER,
        ensures
            fields_view(r@) == index_entry_fields(self@),
    {
        let mut out: Vec<Field> = Vec::new();
        out.push(Field { name: String::from_str("key"), value: Value::Text(self.key.clone()) });
        out.push(number_field("offset", self.offset));
        out
    }

    /// Reads a document as an index record.
    pub fn from_fields(fields: &Vec<Field>) -> (r: Option<KvsIndexEntries>)
        ensures
            match r {
                Some(e) => fields_index_entry(fields_view(fields@)) == Some(e@),
                None => fields_index_entry(fields_view(fields@)).is_none(),
            },
    {
        match (get_text(fields, "key"), get_u64(fields, "offset")) {
            (Some(k), Some(o)) => Some(KvsIndexEntries { key: k.clone(), offset: o }),
            _ => None,
        }
    }

    /// Writes the record as one frame. `None` where the offset is too large,
    /// or the record cannot be written so that it reads back.
    pub fn encode(&self) -> (r: Option<Vec<u8>>)
        ensures
            match r {
                Some(bytes) => index_entry_encodes(self@) && bytes@ == index_entry_bytes(self@),
                None => !index_entry_encodes(self@),
            },
    {
        if self.offset > MAX_NUMBER {
            return None;
        }
        let fields = self.to_fields();
        crate::codec::encode(&fields)
    }

    /// Reads on in an index file from `at`: the record framed there and the
    /// length of its frame, or `None` at the end of the file. What is
    /// neither is a `DeserializationError`.
    pub fn read_at(file: &[u8], at: usize) -> (r: Result<Option<(KvsIndexEntries, usize)>, KvsError>)
        ensures
            match r {
                Ok(Some((e, n))) => index_entry_at(file@, at as int) == Some((e@, n as int)),
                Ok(None) => at == file@.len() && index_entry_at(file@, at as int).is_none(),
                Err(e) => e@ == KvsErrorView::DeserializationError && at != file@.len() && index_entry_at(
                    file@,
                    at as int,
                ).is_none(),
            },
    {
        match KvsIndexEntries::decode_at(file, at) {
            Some(found) => Ok(Some(found)),
            None => if at == file.len() {
                Ok(None)
            } else {
                Err(KvsError::DeserializationError)
            },
        }
    }

    /// Reads the index record framed at `at` in `file`; hands out the record
    /// and the length of its frame.
    pub fn decode_at(file: &[u8], at: usize) -> (r: Option<(KvsIndexEntries, usize)>)
        ensures
            match r {
                Some((e, n)) => index_entry_at(file@, at as int) == Some((e@, n as int)),
                None => index_entry_at(file@, at as int).is_none(),
            },
    {
        match crate::codec::decode_at(file, at) {
            Some((fields, n)) => match KvsIndexEntries::from_fields(&fields) {
                Some(e) => Some((e, n)),
                None => None,
            },
            None => None,
        }
    }
}

} // verus!
