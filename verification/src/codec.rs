//! Framing of records and the document codec.
//!
//! Every record is one BSON document. A document begins with its own total
//! length as a little-endian 32-bit integer, so a reader that stands at a
//! record boundary can cut out exactly one record.

use vstd::prelude::*;

verus! {

/// The little-endian 32-bit unsigned integer held by the four bytes of `s` from `at` on.
pub open spec fn le_u32(s: Seq<u8>, at: int) -> int {
    s[at] as int + 256 * (s[at + 1] as int) + 65536 * (s[at + 2] as int) + 16777216 * (s[at + 3] as int)
}

/// The smallest frame: four bytes of length and the closing zero byte.
pub const MIN_FRAME_LEN: usize = 5;

/// The largest length a frame can announce.
pub const MAX_FRAME_LEN: usize = 0x7fff_ffff;

/// The length of the frame that starts at `at`, if `s` holds a whole frame there:
/// the length prefix can be read, announces at least five bytes and at most
/// `MAX_FRAME_LEN`, and that many bytes lie in `s` from `at` on.
pub open spec fn frame_len(s: Seq<u8>, at: int) -> Option<int> {
    if 0 <= at && at + 4 <= s.len() {
        let n = le_u32(s, at);
        if MIN_FRAME_LEN <= n && n <= MAX_FRAME_LEN && at + n <= s.len() {
            Some(n)
        } else {
            None
        }
    } else {
        None
    }
}

/// The bytes of the frame that starts at `at`.
pub open spec fn frame_at(s: Seq<u8>, at: int) -> Option<Seq<u8>> {
    match frame_len(s, at) {
        Some(n) => Some(s.subrange(at, at + n)),
        None => None,
    }
}

/// Reads the length prefix at `at` and says how long the frame there is, if
/// a whole frame lies in `bytes` from `at` on.
pub fn read_frame_len(bytes: &[u8], at: usize) -> (r: Option<usize>)
    ensures
        match r {
            Some(n) => frame_len(bytes@, at as int) == Some(n as int),
            None => frame_len(bytes@, at as int).is_none(),
        },
{
    let len: usize = bytes.len();
    if len < 4 || at > len - 4 {
        return None;
    }
    let b0: u64 = bytes[at] as u64;
    let b1: u64 = bytes[at + 1] as u64;
    let b2: u64 = bytes[at + 2] as u64;
    let b3: u64 = bytes[at + 3] as u64;
    let n: u64 = b0 + 256 * b1 + 65536 * b2 + 16777216 * b3;
    if n < 5 || n > 0x7fff_ffff {
        return None;
    }
    if n > (len - at) as u64 {
        return None;
    }
    Some(n as usize)
}

/// The value of one element of a document, as far as this library reads and
/// writes them.
#[derive(Debug)]
pub enum Value {
    /// A UTF-8 string.
    Text(String),
    /// A 32-bit signed integer.
    Int32(i32),
    /// A 64-bit signed integer.
    Int64(i64),
    /// The null value.
    Null,
    /// An array whose elements are all strings.
    Texts(Vec<String>),
}

/// What a `Value` is, mathematically.
pub enum ValueView {
    Text(Seq<char>),
    Int32(i32),
    Int64(i64),
    Null,
    Texts(Seq<Seq<char>>),
}

/// The texts of a list of strings.
pub open spec fn texts_view(list: Seq<String>) -> Seq<Seq<char>> {
    list.map_values(|s: String| s@)
}

impl View for Value {
    type V = ValueView;

    open spec fn view(&self) -> ValueView {
        match self {
            Value::Text(s) => ValueView::Text(s@),
            Value::Int32(n) => ValueView::Int32(*n),
            Value::Int64(n) => ValueView::Int64(*n),
            Value::Null => ValueView::Null,
            Value::Texts(list) => ValueView::Texts(texts_view(list@)),
        }
    }
}

/// One element of a document: its name and its value.
#[derive(Debug)]
pub struct Field {
    pub name: String,
    pub value: Value,
}

/// What a `Field` is, mathematically.
pub struct FieldView {
    pub name: Seq<char>,
    pub value: ValueView,
}

impl View for Field {
    type V = FieldView;

    open spec fn view(&self) -> FieldView {
        FieldView { name: self.name@, value: self.value@ }
    }
}

/// The elements of a document, in order.
pub open spec fn fields_view(fields: Seq<Field>) -> Seq<FieldView> {
    fields.map_values(|f: Field| f@)
}

/// The bytes that `bson` writes for a document with these elements.
pub uninterp spec fn bson_document(fields: Seq<FieldView>) -> Seq<u8>;

/// The value of one element of a document as `bson` reads it: an array is
/// held as its own bytes, which are a document of its items.
#[derive(Debug)]
pub enum Element {
    Text(String),
    Int32(i32),
    Int64(i64),
    Null,
    Array(Vec<u8>),
    /// An element of any other kind.
    Other,
}

/// What an `Element` is, mathematically.
pub enum ElementView {
    Text(Seq<char>),
    Int32(i32),
    Int64(i64),
    Null,
    Array(Seq<u8>),
    Other,
}

impl View for Element {
    type V = ElementView;

    open spec fn view(&self) -> ElementView {
        match self {
            Element::Text(s) => ElementView::Text(s@),
            Element::Int32(n) => ElementView::Int32(*n),
            Element::Int64(n) => ElementView::Int64(*n),
            Element::Null => ElementView::Null,
            Element::Array(bytes) => ElementView::Array(bytes@),
            Element::Other => ElementView::Other,
        }
    }
}

/// The names and elements of a document, in order.
pub open spec fn elements_view(elements: Seq<(String, Element)>) -> Seq<(Seq<char>, ElementView)> {
    elements.map_values(|e: (String, Element)| (e.0@, e.1@))
}

/// The names and elements that `bson` reads from these bytes: `None` where
/// `bson` reports an error.
pub uninterp spec fn bson_elements(bytes: Seq<u8>) -> Option<Seq<(Seq<char>, ElementView)>>;

/// Every item is a string.
pub open spec fn all_texts(items: Seq<(Seq<char>, ElementView)>) -> bool {
    forall|i: int| 0 <= i < items.len() ==> (#[trigger] items[i]).1 is Text
}

/// The strings of an array's items, where every item is one.
pub open spec fn items_texts(items: Seq<(Seq<char>, ElementView)>) -> Option<Seq<Seq<char>>> {
    if all_texts(items) {
        Some(Seq::new(items.len(), |i: int| items[i].1->Text_0))
    } else {
        None
    }
}

/// The value that an element is: a string, a number or null as it is; an
/// array where its bytes are read as a document and every item is a string.
pub open spec fn element_value(e: ElementView) -> Option<ValueView> {
    match e {
        ElementView::Text(s) => Some(ValueView::Text(s)),
        ElementView::Int32(n) => Some(ValueView::Int32(n)),
        ElementView::Int64(n) => Some(ValueView::Int64(n)),
        ElementView::Null => Some(ValueView::Null),
        ElementView::Array(bytes) => match bson_elements(bytes) {
            Some(items) => match items_texts(items) {
                Some(list) => Some(ValueView::Texts(list)),
                None => None,
            },
            None => None,
        },
        ElementView::Other => None,
    }
}

/// Every element is a value.
pub open spec fn all_values(elements: Seq<(Seq<char>, ElementView)>) -> bool {
    forall|i: int| 0 <= i < elements.len() ==> element_value((#[trigger] elements[i]).1).is_some()
}

/// The elements that are read from these bytes: `None` where the bytes are
/// no well-formed document, or hold an element that is no value.
pub open spec fn bson_fields(bytes: Seq<u8>) -> Option<Seq<FieldView>> {
    match bson_elements(bytes) {
        Some(elements) => if all_values(elements) {
            Some(
                Seq::new(
                    elements.len(),
                    |i: int| FieldView { name: elements[i].0, value: element_value(elements[i].1).unwrap() },
                ),
            )
        } else {
            None
        },
        None => None,
    }
}

/// One more than the largest number of bytes a string in a document may have.
pub const MAX_TEXT_LEN: usize = 0x7fff_ffff;

/// The UTF-8 bytes of a text.
pub open spec fn utf8(text: Seq<char>) -> Seq<u8> {
    vstd::utf8::encode_utf8(text)
}

/// A name can be written as an element's name: it holds no zero byte.
pub open spec fn name_ok(name: Seq<char>) -> bool {
    forall|i: int| 0 <= i < utf8(name).len() ==> #[trigger] utf8(name)[i] != 0u8
}

/// A text can be written as a string: its length fits the format's 32-bit prefix.
pub open spec fn text_ok(text: Seq<char>) -> bool {
    utf8(text).len() < MAX_TEXT_LEN
}

/// Every text of a list can be written.
pub open spec fn texts_ok(list: Seq<Seq<char>>) -> bool {
    forall|i: int| 0 <= i < list.len() ==> text_ok(#[trigger] list[i])
}

/// A value can be written.
pub open spec fn value_ok(value: ValueView) -> bool {
    match value {
        ValueView::Text(s) => text_ok(s),
        ValueView::Texts(list) => texts_ok(list),
        _ => true,
    }
}

/// Every element of the document can be written.
pub open spec fn encodable(fields: Seq<FieldView>) -> bool {
    forall|i: int| 0 <= i < fields.len() ==> name_ok((#[trigger] fields[i]).name) && value_ok(fields[i].value)
}

/// Calls `bson::RawDocumentBuf::append` once for each element, in order, on a
/// new buffer, and hands out the buffer's bytes. The contract only gives those
/// bytes a name: they are a function of the elements. `append` panics on a
/// name with a zero byte, and a string's length must fit in 31 bits.
#[verifier::external_body]
fn write_document(fields: &Vec<Field>) -> (bytes: Vec<u8>)
    requires
        encodable(fields_view(fields@)),
    ensures
        bytes@ == bson_document(fields_view(fields@)),
{
    let mut doc = bson::RawDocumentBuf::new();
    for f in fields {
        match &f.value {
            Value::Text(s) => doc.append(&f.name, s.as_str()),
            Value::Int32(n) => doc.append(&f.name, *n),
            Value::Int64(n) => doc.append(&f.name, *n),
            Value::Null => doc.append(&f.name, bson::RawBson::Null),
            Value::Texts(l) => doc.append(&f.name, l.iter().cloned().collect::<bson::RawArrayBuf>()),
        }
    }
    doc.into_bytes()
}

/// Calls `bson::RawDocument::from_bytes` and walks the document with its
/// iterator. The contract only gives the outcome a name: it is a function of
/// the bytes. `None` comes back where `bson` reports an error.
#[verifier::external_body]
fn read_elements(bytes: &[u8]) -> (r: Option<Vec<(String, Element)>>)
    ensures
        match r {
            Some(elements) => bson_elements(bytes@) == Some(elements_view(elements@)),
            None => bson_elements(bytes@).is_none(),
        },
{
    let doc = bson::RawDocument::from_bytes(bytes).ok()?;
    doc.iter().map(|item| item.ok().map(|(name, value)| (name.to_owned(), match value {
        bson::RawBsonRef::String(s) => Element::Text(s.to_owned()),
        bson::RawBsonRef::Int32(n) => Element::Int32(n),
        bson::RawBsonRef::Int64(n) => Element::Int64(n),
        bson::RawBsonRef::Null => Element::Null,
        bson::RawBsonRef::Array(a) => Element::Array(a.as_bytes().to_vec()),
        _ => Element::Other,
    }))).collect()
}

/// Reads the items of an array as strings. `None` where the array's bytes
/// are no document, or an item is no string.
fn read_texts(bytes: &[u8]) -> (r: Option<Vec<String>>)
    ensures
        match r {
            Some(list) => element_value(ElementView::Array(bytes@)) == Some(ValueView::Texts(texts_view(list@))),
            None => element_value(ElementView::Array(bytes@)).is_none(),
        },
{
    let items = match read_elements(bytes) {
        Some(items) => items,
        None => {
            return None;
        },
    };
    let ghost all = elements_view(items@);
    let mut list: Vec<String> = Vec::new();
    let count: usize = items.len();
    let mut i: usize = 0;
    while i < count
        invariant
            i <= count,
            count == items@.len(),
            elements_view(items@) == all,
            bson_elements(bytes@) == Some(all),
            list@.len() == i,
            forall|j: int| 0 <= j < i ==> (#[trigger] all[j]).1 is Text && list@[j]@ == all[j].1->Text_0,
        decreases count - i,
    {
        match &items[i].1 {
            Element::Text(s) => {
                list.push(s.clone());
            },
            _ => {
                assert(!(all[i as int].1 is Text));
                return None;
            },
        }
        i += 1;
    }
    assert(texts_view(list@) =~= items_texts(all).unwrap());
    Some(list)
}

/// Reads one element as a value.
fn read_value(element: &Element) -> (r: Option<Value>)
    ensures
        match r {
            Some(value) => element_value(element@) == Some(value@),
            None => element_value(element@).is_none(),
        },
{
    match element {
        Element::Text(s) => Some(Value::Text(s.clone())),
        Element::Int32(n) => Some(Value::Int32(*n)),
        Element::Int64(n) => Some(Value::Int64(*n)),
        Element::Null => Some(Value::Null),
        Element::Array(bytes) => match read_texts(bytes.as_slice()) {
            Some(list) => Some(Value::Texts(list)),
            None => None,
        },
        Element::Other => None,
    }
}

/// Reads a document's elements as values. `None` where the bytes are no
/// well-formed document, or hold an element that is no value.
fn read_document(bytes: &[u8]) -> (r: Option<Vec<Field>>)
    ensures
        match r {
            Some(fields) => bson_fields(bytes@) == Some(fields_view(fields@)),
            None => bson_fields(bytes@).is_none(),
        },
{
    let elements = match read_elements(bytes) {
        Some(elements) => elements,
        None => {
            return None;
        },
    };
    let ghost all = elements_view(elements@);
    let mut fields: Vec<Field> = Vec::new();
    let count: usize = elements.len();
    let mut i: usize = 0;
    while i < count
        invariant
            i <= count,
            count == elements@.len(),
            elements_view(elements@) == all,
            bson_elements(bytes@) == Some(all),
            fields@.len() == i,
            forall|j: int|
                0 <= j < i ==> element_value((#[trigger] all[j]).1) == Some(fields@[j]@.value) && fields@[j]@.name
                    == all[j].0,
        decreases count - i,
    {
        assert(all[i as int] == (elements@[i as int].0@, elements@[i as int].1@));
        match read_value(&elements[i].1) {
            Some(value) => {
                fields.push(Field { name: elements[i].0.clone(), value });
            },
            None => {
                return None;
            },
        }
        i += 1;
    }
    Some(fields)
}

/// The document that `bytes` is: they are exactly one frame, and `bson` reads
/// these elements from them.
pub open spec fn document_of(bytes: Seq<u8>) -> Option<Seq<FieldView>> {
    if frame_len(bytes, 0) == Some(bytes.len() as int) {
        bson_fields(bytes)
    } else {
        None
    }
}

/// The document framed at `at` in `log`, and the length of its frame.
pub open spec fn document_at(log: Seq<u8>, at: int) -> Option<(Seq<FieldView>, int)> {
    match frame_at(log, at) {
        Some(frame) => match bson_fields(frame) {
            Some(fields) => Some((fields, frame.len() as int)),
            None => None,
        },
        None => None,
    }
}

/// The document can be written, and what is written reads back as the same document.
pub open spec fn encodes(fields: Seq<FieldView>) -> bool {
    encodable(fields) && document_of(bson_document(fields)) == Some(fields)
}

/// Whether a name holds no zero byte.
pub fn check_name(name: &String) -> (r: bool)
    ensures
        r == name_ok(name@),
{
    let bytes = name.as_str().as_bytes();
    let mut i: usize = 0;
    while i < bytes.len()
        invariant
            i <= bytes.len(),
            bytes@ == utf8(name@),
            forall|j: int| 0 <= j < i ==> #[trigger] bytes@[j] != 0u8,
        decreases bytes.len() - i,
    {
        if bytes[i] == 0 {
            return false;
        }
        i += 1;
    }
    true
}

/// Whether a text is short enough to be written.
pub fn check_text(text: &String) -> (r: bool)
    ensures
        r == text_ok(text@),
{
    text.as_str().as_bytes().len() < MAX_TEXT_LEN
}

/// Whether a value can be written.
pub fn check_value(value: &Value) -> (r: bool)
    ensures
        r == value_ok(value@),
{
    match value {
        Value::Text(s) => check_text(s),
        Value::Texts(list) => {
            let mut i: usize = 0;
            while i < list.len()
                invariant
                    i <= list.len(),
                    value@ == ValueView::Texts(texts_view(list@)),
                    forall|j: int| 0 <= j < i ==> text_ok(#[trigger] texts_view(list@)[j]),
                decreases list.len() - i,
            {
                if !check_text(&list[i]) {
                    assert(!text_ok(texts_view(list@)[i as int]));
                    return false;
                }
                i += 1;
            }
            true
        },
        _ => true,
    }
}

/// Whether every element of a document can be written.
pub fn check_fields(fields: &Vec<Field>) -> (r: bool)
    ensures
        r == encodable(fields_view(fields@)),
{
    let mut i: usize = 0;
    while i < fields.len()
        invariant
            i <= fields.len(),
            forall|j: int| 0 <= j < i ==> name_ok((#[trigger] fields_view(fields@)[j]).name) && value_ok(fields_view(fields@)[j].value),
        decreases fields.len() - i,
    {
        if !check_name(&fields[i].name) || !check_value(&fields[i].value) {
            assert(fields_view(fields@)[i as int] == fields@[i as int]@);
            return false;
        }
        i += 1;
    }
    true
}

/// Whether two lists hold the same texts.
pub fn same_texts(a: &Vec<String>, b: &Vec<String>) -> (r: bool)
    ensures
        r == (texts_view(a@) == texts_view(b@)),
{
    if a.len() != b.len() {
        return false;
    }
    let mut i: usize = 0;
    while i < a.len()
        invariant
            i <= a.len(),
            a.len() == b.len(),
            forall|j: int| 0 <= j < i ==> a@[j]@ == b@[j]@,
        decreases a.len() - i,
    {
        if a[i] != b[i] {
            assert(texts_view(a@)[i as int] != texts_view(b@)[i as int]);
            return false;
        }
        i += 1;
    }
    assert(texts_view(a@) =~= texts_view(b@));
    true
}

/// Whether two values are the same.
pub fn same_value(a: &Value, b: &Value) -> (r: bool)
    ensures
        r == (a@ == b@),
{
    match (a, b) {
        (Value::Text(x), Value::Text(y)) => *x == *y,
        (Value::Int32(x), Value::Int32(y)) => *x == *y,
        (Value::Int64(x), Value::Int64(y)) => *x == *y,
        (Value::Null, Value::Null) => true,
        (Value::Texts(x), Value::Texts(y)) => same_texts(x, y),
        _ => false,
    }
}

/// Whether two documents hold the same elements in the same order.
pub fn same_fields(a: &Vec<Field>, b: &Vec<Field>) -> (r: bool)
    ensures
        r == (fields_view(a@) == fields_view(b@)),
{
    if a.len() != b.len() {
        return false;
    }
    let mut i: usize = 0;
    while i < a.len()
        invariant
            i <= a.len(),
            a.len() == b.len(),
            forall|j: int| 0 <= j < i ==> a@[j]@ == b@[j]@,
        decreases a.len() - i,
    {
        if a[i].name != b[i].name || !same_value(&a[i].value, &b[i].value) {
            assert(fields_view(a@)[i as int] != fields_view(b@)[i as int]);
            return false;
        }
        i += 1;
    }
    assert(fields_view(a@) =~= fields_view(b@));
    true
}

/// Reads the document that `bytes` is.
pub fn decode(bytes: &[u8]) -> (r: Option<Vec<Field>>)
    ensures
        match r {
            Some(fields) => document_of(bytes@) == Some(fields_view(fields@)),
            None => document_of(bytes@).is_none(),
        },
{
    match read_frame_len(bytes, 0) {
        Some(n) => if n == bytes.len() {
            read_document(bytes)
        } else {
            None
        },
        None => None,
    }
}

/// Reads the document framed at `at` in `log`; hands out its elements and the
/// length of its frame.
pub fn decode_at(log: &[u8], at: usize) -> (r: Option<(Vec<Field>, usize)>)
    ensures
        match r {
            Some((fields, n)) => document_at(log@, at as int) == Some((fields_view(fields@), n as int)),
            None => document_at(log@, at as int).is_none(),
        },
{
    match read_frame_len(log, at) {
        Some(n) => {
            assert(at + n <= log.len());
            match read_document(&log[at..at + n]) {
                Some(fields) => Some((fields, n)),
                None => None,
            }
        },
        None => None,
    }
}

/// Writes a document, and checks that what was written is one frame that
/// reads back as the same document. `None` where the document cannot be
/// written or does not read back.
pub fn encode(fields: &Vec<Field>) -> (r: Option<Vec<u8>>)
    ensures
        match r {
            Some(bytes) => encodes(fields_view(fields@)) && bytes@ == bson_document(fields_view(fields@)),
            None => !encodes(fields_view(fields@)),
        },
{
    if !check_fields(fields) {
        return None;
    }
    let bytes = write_document(fields);
    match decode(bytes.as_slice()) {
        Some(back) => if same_fields(&back, fields) {
            Some(bytes)
        } else {
            None
        },
        None => None,
    }
}

/// The value of the first element from position `from` on that is named `name`.
pub open spec fn find_from(fields: Seq<FieldView>, name: Seq<char>, from: int) -> Option<ValueView>
    decreases fields.len() - from,
{
    if from < 0 || from >= fields.len() {
        None
    } else if fields[from].name == name {
        Some(fields[from].value)
    } else {
        find_from(fields, name, from + 1)
    }
}

/// The value of the first element named `name`.
pub open spec fn field_value(fields: Seq<FieldView>, name: Seq<char>) -> Option<ValueView> {
    find_from(fields, name, 0)
}

/// Finds the first element named `name`.
pub fn find_field<'a>(fields: &'a Vec<Field>, name: &str) -> (r: Option<&'a Value>)
    ensures
        match r {
            Some(v) => field_value(fields_view(fields@), name@) == Some(v@),
            None => field_value(fields_view(fields@), name@).is_none(),
        },
{
    let mut i: usize = 0;
    while i < fields.len()
        invariant
            i <= fields.len(),
            field_value(fields_view(fields@), name@) == find_from(fields_view(fields@), name@, i as int),
        decreases fields.len() - i,
    {
        if crate::text::same_str(fields[i].name.as_str(), name) {
            return Some(&fields[i].value);
        }
        i += 1;
    }
    None
}

/// The number that a value holds, read as an unsigned 64-bit integer: a
/// 32-bit or 64-bit integer that is not negative.
pub open spec fn value_u64(value: ValueView) -> Option<u64> {
    match value {
        ValueView::Int64(n) => if n >= 0 { Some(n as u64) } else { None },
        ValueView::Int32(n) => if n >= 0 { Some(n as u64) } else { None },
        _ => None,
    }
}

/// Reads a value as an unsigned 64-bit integer.
pub fn as_u64(value: &Value) -> (r: Option<u64>)
    ensures
        r == value_u64(value@),
{
    match value {
        Value::Int64(n) => if *n >= 0 { Some(*n as u64) } else { None },
        Value::Int32(n) => if *n >= 0 { Some(*n as u64) } else { None },
        _ => None,
    }
}

/// The text that a value holds.
pub open spec fn value_text(value: ValueView) -> Option<Seq<char>> {
    match value {
        ValueView::Text(s) => Some(s),
        _ => None,
    }
}

/// Reads a value as a text.
pub fn as_text(value: &Value) -> (r: Option<&String>)
    ensures
        match r {
            Some(s) => value_text(value@) == Some(s@),
            None => value_text(value@).is_none(),
        },
{
    match value {
        Value::Text(s) => Some(s),
        _ => None,
    }
}

} // verus!
