//! What a file of framed records means: the scan that walks it record by
//! record, and the facts about scans that the store relies on.

use vstd::prelude::*;
use crate::codec::{FieldView, frame_len, frame_at, document_at, document_of, le_u32};
use crate::records::{EntryView, IndexEntryView, fields_entry, fields_index_entry, entry_at};
use crate::index::{listed_after_set, without};
use crate::records::{index_entry_bytes, index_entry_encodes};

verus! {

/// A map from keys to offsets.
pub type Offsets = Map<Seq<char>, u64>;

/// What an index holds: the keys in the order in which they are listed, and
/// the offset of each.
pub struct Listing {
    pub keys: Seq<Seq<char>>,
    pub offsets: Offsets,
}

/// The listing that holds no key.
pub open spec fn nothing() -> Listing {
    Listing { keys: Seq::empty(), offsets: Map::empty() }
}

/// The listing once `key` is given `offset`: a new key is listed last.
pub open spec fn with_key(l: Listing, key: Seq<char>, offset: u64) -> Listing {
    Listing { keys: listed_after_set(l.keys, l.offsets, key), offsets: l.offsets.insert(key, offset) }
}

/// The listing once `key` is taken out: the key that was listed last takes
/// its place.
pub open spec fn without_key(l: Listing, key: Seq<char>) -> Listing {
    Listing {
        keys: if l.offsets.contains_key(key) {
            without(l.keys, l.keys.index_of(key))
        } else {
            l.keys
        },
        offsets: l.offsets.remove(key),
    }
}

/// What one record does to a listing: a function of the listing so far,
/// the record's document and the offset at which the record starts. `None`
/// where the document is no record of the file.
pub type Step = spec_fn(Listing, Seq<FieldView>, int) -> Option<Listing>;

/// Walks the records of `log` from `at` on, as far as they can be read, and
/// takes each into `listing` with `step`. Gives the listing after the last
/// record that could be read, and the offset at which the walk stopped.
pub open spec fn scan(log: Seq<u8>, at: int, listing: Listing, step: Step) -> (Listing, int)
    decreases log.len() - at,
{
    match frame_len(log, at) {
        Some(n) => match document_at(log, at) {
            Some((fields, _)) => match step(listing, fields, at) {
                Some(next) => scan(log, at + n, next, step),
                None => (listing, at),
            },
            None => (listing, at),
        },
        None => (listing, at),
    }
}

/// What a data record does to a listing when it is taken in at `at`: a
/// `SET` gives its key the record's own offset, a `DELETE` takes its key out.
pub open spec fn take_in(l: Listing, e: EntryView, at: int) -> Listing {
    match e {
        EntryView::SET(k, _) => with_key(l, k, at as u64),
        EntryView::DELETE(k) => without_key(l, k),
    }
}

/// What a record of the data file does to a listing: see `take_in`.
pub open spec fn entry_step() -> Step {
    |l: Listing, fields: Seq<FieldView>, at: int|
        match fields_entry(fields) {
            Some(e) => Some(take_in(l, e, at)),
            None => None,
        }
}

/// What a record of the index file does to a listing: it gives its key
/// the offset that it holds.
pub open spec fn index_step() -> Step {
    |l: Listing, fields: Seq<FieldView>, at: int|
        match fields_index_entry(fields) {
            Some(e) => Some(with_key(l, e.key, e.offset)),
            None => None,
        }
}

/// The listing that replaying the data file from `at` on gives, and where
/// the replay stops.
pub open spec fn replay(log: Seq<u8>, at: int) -> (Listing, int) {
    scan(log, at, nothing(), entry_step())
}

/// The listing that an index file holds, and where reading it stops.
pub open spec fn load(file: Seq<u8>) -> (Listing, int) {
    scan(file, 0, nothing(), index_step())
}

/// A frame means the same wherever its bytes stand.
pub proof fn lemma_frame_moved(a: Seq<u8>, i: int, b: Seq<u8>, j: int)
    requires
        frame_len(a, i).is_some(),
        0 <= j,
        j + frame_len(a, i).unwrap() <= b.len(),
        forall|p: int| i <= p < i + frame_len(a, i).unwrap() ==> #[trigger] a[p] == b[p - i + j],
    ensures
        frame_len(b, j) == frame_len(a, i),
        frame_at(b, j) == frame_at(a, i),
        document_at(b, j) == document_at(a, i),
{
    let n = frame_len(a, i).unwrap();
    assert(a[i] == b[i - i + j] && a[i + 1] == b[i + 1 - i + j] && a[i + 2] == b[i + 2 - i + j] && a[i + 3] == b[i + 3 - i + j]);
    assert(le_u32(a, i) == le_u32(b, j));
    assert(frame_len(b, j) == Some(n));
    assert forall|t: int| 0 <= t < n implies #[trigger] a.subrange(i, i + n)[t] == b.subrange(j, j + n)[t] by {
        assert(a[i + t] == b[i + t - i + j]);
    }
    assert(a.subrange(i, i + n) =~= b.subrange(j, j + n));
}

/// Bytes added behind a frame leave it as it is.
pub proof fn lemma_frame_kept(log: Seq<u8>, more: Seq<u8>, at: int)
    requires
        frame_len(log, at).is_some(),
    ensures
        frame_len(log + more, at) == frame_len(log, at),
        document_at(log + more, at) == document_at(log, at),
{
    lemma_frame_moved(log, at, log + more, at);
}

/// A document that is added at the end of a log is framed there.
pub proof fn lemma_document_added(log: Seq<u8>, rec: Seq<u8>)
    requires
        document_of(rec).is_some(),
    ensures
        frame_len(log + rec, log.len() as int) == Some(rec.len() as int),
        document_at(log + rec, log.len() as int) == Some((document_of(rec).unwrap(), rec.len() as int)),
{
    lemma_frame_moved(rec, 0, log + rec, log.len() as int);
    assert(rec.subrange(0, rec.len() as int) =~= rec);
}

/// A walk never goes back, and stops inside the log.
pub proof fn lemma_scan_bounds(log: Seq<u8>, at: int, listing: Listing, step: Step)
    requires
        0 <= at <= log.len(),
    ensures
        at <= scan(log, at, listing, step).1 <= log.len(),
    decreases log.len() - at,
{
    match frame_len(log, at) {
        Some(n) => match document_at(log, at) {
            Some((fields, _)) => match step(listing, fields, at) {
                Some(next) => lemma_scan_bounds(log, at + n, next, step),
                None => {},
            },
            None => {},
        },
        None => {},
    }
}

/// Where a walk reached the end of the log, a record added there is taken
/// in after all the others.
pub proof fn lemma_scan_added(log: Seq<u8>, rec: Seq<u8>, at: int, listing: Listing, step: Step)
    requires
        0 <= at <= log.len(),
        scan(log, at, listing, step).1 == log.len(),
        document_of(rec).is_some(),
        step(scan(log, at, listing, step).0, document_of(rec).unwrap(), log.len() as int).is_some(),
    ensures
        scan(log + rec, at, listing, step) == (
            step(scan(log, at, listing, step).0, document_of(rec).unwrap(), log.len() as int).unwrap(),
            (log.len() + rec.len()) as int,
        ),
    decreases log.len() - at,
{
    let longer = log + rec;
    let stepped = match frame_len(log, at) {
        Some(n) => match document_at(log, at) {
            Some((fields, _)) => step(listing, fields, at),
            None => None,
        },
        None => None,
    };
    if stepped.is_some() {
        let n = frame_len(log, at).unwrap();
        lemma_frame_kept(log, rec, at);
        lemma_scan_added(log, rec, at + n, stepped.unwrap(), step);
    } else {
        lemma_document_added(log, rec);
        let end = (log.len() + rec.len()) as int;
        assert(scan(longer, end, step(listing, document_of(rec).unwrap(), at).unwrap(), step).1 == end);
    }
}

/// Two logs of one length that agree from `at` on are walked alike from there.
pub proof fn lemma_scan_same(a: Seq<u8>, b: Seq<u8>, at: int, listing: Listing, step: Step)
    requires
        0 <= at,
        a.len() == b.len(),
        forall|i: int| at <= i < a.len() ==> a[i] == b[i],
    ensures
        scan(a, at, listing, step) == scan(b, at, listing, step),
    decreases a.len() - at,
{
    if frame_len(a, at).is_some() {
        let n = frame_len(a, at).unwrap();
        lemma_frame_moved(a, at, b, at);
        match document_at(a, at) {
            Some((fields, _)) => match step(listing, fields, at) {
                Some(next) => lemma_scan_same(a, b, at + n, next, step),
                None => {},
            },
            None => {},
        }
    }
}

/// A log cut off where its walk stops is walked to its end, with the same offsets.
pub proof fn lemma_scan_cut(log: Seq<u8>, at: int, listing: Listing, step: Step)
    requires
        0 <= at <= log.len(),
    ensures
        scan(log.take(scan(log, at, listing, step).1), at, listing, step) == scan(log, at, listing, step),
    decreases log.len() - at,
{
    let end = scan(log, at, listing, step).1;
    let cut = log.take(end);
    let stepped = match frame_len(log, at) {
        Some(n) => match document_at(log, at) {
            Some((fields, _)) => step(listing, fields, at),
            None => None,
        },
        None => None,
    };
    if stepped.is_some() {
        let n = frame_len(log, at).unwrap();
        lemma_scan_bounds(log, at + n, stepped.unwrap(), step);
        lemma_frame_moved(log, at, cut, at);
        lemma_scan_cut(log, at + n, stepped.unwrap(), step);
    }
}

/// The value of the `SET` record for `key` that is framed at `at` in `log`:
/// `None` where no record is framed there, or it is no `SET`, or it is one
/// for another key.
pub open spec fn set_at(log: Seq<u8>, key: Seq<char>, at: int) -> Option<Seq<char>> {
    match entry_at(log, at) {
        Some((EntryView::SET(k, v), _)) => if k == key {
            Some(v)
        } else {
            None
        },
        _ => None,
    }
}

/// Every key's offset lies behind the header and points at a `SET` record
/// of that key.
pub open spec fn sound(log: Seq<u8>, header_len: int, offsets: Offsets) -> bool {
    forall|k: Seq<char>| #[trigger]
        offsets.contains_key(k) ==> header_len <= offsets[k] < log.len() && set_at(log, k, offsets[k] as int).is_some()
}

/// The value of each key: what the `SET` record at its offset holds.
pub open spec fn contents(log: Seq<u8>, offsets: Offsets) -> Map<Seq<char>, Seq<char>> {
    Map::new(|k: Seq<char>| offsets.contains_key(k), |k: Seq<char>| set_at(log, k, offsets[k] as int).unwrap())
}

/// What a data record does to the offsets when it is taken in at `at`.
pub open spec fn apply(offsets: Offsets, e: EntryView, at: int) -> Offsets {
    match e {
        EntryView::SET(k, _) => offsets.insert(k, at as u64),
        EntryView::DELETE(k) => offsets.remove(k),
    }
}

/// What a data record does to the contents.
pub open spec fn update(contents: Map<Seq<char>, Seq<char>>, e: EntryView) -> Map<Seq<char>, Seq<char>> {
    match e {
        EntryView::SET(k, v) => contents.insert(k, v),
        EntryView::DELETE(k) => contents.remove(k),
    }
}

/// A record framed behind the end of a frame leaves what that frame holds.
pub proof fn lemma_set_kept(log: Seq<u8>, more: Seq<u8>, key: Seq<char>, at: int)
    requires
        set_at(log, key, at).is_some(),
    ensures
        set_at(log + more, key, at) == set_at(log, key, at),
{
    lemma_frame_kept(log, more, at);
}

/// The data record that a frame by itself holds.
pub open spec fn entry_of(rec: Seq<u8>) -> Option<EntryView> {
    match document_of(rec) {
        Some(fields) => fields_entry(fields),
        None => None,
    }
}

/// A data record that is added at the end of a sound log: the offsets that
/// take it in are sound, and so are the contents brought up to date.
pub proof fn lemma_entry_added(log: Seq<u8>, header_len: int, offsets: Offsets, rec: Seq<u8>, e: EntryView)
    requires
        sound(log, header_len, offsets),
        0 <= header_len <= log.len() <= u64::MAX,
        entry_of(rec) == Some(e),
    ensures
        sound(log + rec, header_len, apply(offsets, e, log.len() as int)),
        contents(log + rec, apply(offsets, e, log.len() as int)) == update(contents(log, offsets), e),
        entry_at(log + rec, log.len() as int) == Some((e, rec.len() as int)),
{
    let longer = log + rec;
    let at = log.len() as int;
    let next = apply(offsets, e, at);
    lemma_document_added(log, rec);
    assert forall|k: Seq<char>| #[trigger] next.contains_key(k) implies header_len <= next[k] < longer.len()
        && set_at(longer, k, next[k] as int).is_some() && set_at(longer, k, next[k] as int).unwrap() == update(
        contents(log, offsets),
        e,
    )[k] by {
        if k != e.key() {
            lemma_set_kept(log, rec, k, offsets[k] as int);
        }
    }
}

/// A data record that is added at the end of a log whose replay reached the
/// end: the replay of the longer log takes the record in last.
pub proof fn lemma_replay_added(log: Seq<u8>, header_len: int, rec: Seq<u8>, e: EntryView)
    requires
        0 <= header_len <= log.len(),
        replay(log, header_len).1 == log.len(),
        entry_of(rec) == Some(e),
    ensures
        replay(log + rec, header_len) == (
            take_in(replay(log, header_len).0, e, log.len() as int),
            (log.len() + rec.len()) as int,
        ),
{
    lemma_scan_added(log, rec, header_len, nothing(), entry_step());
}

/// A log whose first `header_len` bytes are replaced: what lies behind them
/// means what it meant.
pub proof fn lemma_header_replaced(log: Seq<u8>, header_len: int, offsets: Offsets, head: Seq<u8>)
    requires
        0 <= header_len <= log.len(),
        head.len() == header_len,
        sound(log, header_len, offsets),
    ensures
        sound(head + log.skip(header_len), header_len, offsets),
        contents(head + log.skip(header_len), offsets) == contents(log, offsets),
        replay(head + log.skip(header_len), header_len) == replay(log, header_len),
{
    let other = head + log.skip(header_len);
    lemma_scan_same(log, other, header_len, nothing(), entry_step());
    assert forall|k: Seq<char>| #[trigger] offsets.contains_key(k) implies set_at(other, k, offsets[k] as int)
        == set_at(log, k, offsets[k] as int) by {
        let at = offsets[k] as int;
        lemma_frame_moved(log, at, other, at);
    }
}

/// The frames of the live records, one behind the other in the order of `keys`.
pub open spec fn live(log: Seq<u8>, keys: Seq<Seq<char>>, offsets: Offsets) -> Seq<u8>
    decreases keys.len(),
{
    if keys.len() == 0 {
        Seq::empty()
    } else {
        live(log, keys.drop_last(), offsets) + frame_at(log, offsets[keys.last()] as int).unwrap()
    }
}

/// Every key of `fresh` is a key of `offsets`, and its record in `buf` holds
/// what its record in `log` holds.
pub open spec fn carried(log: Seq<u8>, offsets: Offsets, buf: Seq<u8>, fresh: Offsets) -> bool {
    forall|k: Seq<char>| #[trigger]
        fresh.contains_key(k) ==> offsets.contains_key(k) && set_at(buf, k, fresh[k] as int) == set_at(
            log,
            k,
            offsets[k] as int,
        )
}

/// One step of a compaction: the live record of `key` is copied from `log`
/// to the end of `buf`, and `fresh` takes it in there.
pub proof fn lemma_record_copied(
    log: Seq<u8>,
    offsets: Offsets,
    buf: Seq<u8>,
    header_len: int,
    copied: Listing,
    key: Seq<char>,
)
    requires
        offsets.contains_key(key),
        set_at(log, key, offsets[key] as int).is_some(),
        0 <= header_len <= buf.len() <= u64::MAX,
        sound(buf, header_len, copied.offsets),
        carried(log, offsets, buf, copied.offsets),
        replay(buf, header_len) == (copied, buf.len() as int),
    ensures
        ({
            let rec = frame_at(log, offsets[key] as int).unwrap();
            let next = with_key(copied, key, buf.len() as u64);
            &&& sound(buf + rec, header_len, next.offsets)
            &&& carried(log, offsets, buf + rec, next.offsets)
            &&& replay(buf + rec, header_len) == (next, (buf.len() + rec.len()) as int)
        }),
{
    let at = offsets[key] as int;
    let rec = frame_at(log, at).unwrap();
    let e = entry_at(log, at).unwrap().0;
    let fresh = copied.offsets;
    let next = fresh.insert(key, buf.len() as u64);
    lemma_entry_added(buf, header_len, fresh, rec, e);
    lemma_replay_added(buf, header_len, rec, e);
    assert forall|k: Seq<char>| #[trigger] next.contains_key(k) implies offsets.contains_key(k) && set_at(
        buf + rec,
        k,
        next[k] as int,
    ) == set_at(log, k, offsets[k] as int) by {
        if k != key {
            lemma_set_kept(buf, rec, k, fresh[k] as int);
        }
    }
}

/// The end of a compaction: where `fresh` has taken in every key of
/// `offsets`, the contents are those of before.
pub proof fn lemma_all_copied(log: Seq<u8>, offsets: Offsets, buf: Seq<u8>, fresh: Offsets)
    requires
        carried(log, offsets, buf, fresh),
        forall|k: Seq<char>| #[trigger] offsets.contains_key(k) ==> fresh.contains_key(k),
    ensures
        contents(buf, fresh) == contents(log, offsets),
{
}

/// A header that was written, with anything behind it, is the header of the log.
pub proof fn lemma_header_installed(head: Seq<u8>, tail: Seq<u8>, h: crate::records::KvHeader)
    requires
        crate::records::header_encodes(h),
        head == crate::records::header_bytes(h),
    ensures
        crate::records::header_at(head + tail) == Some((h, head.len() as int)),
{
    lemma_frame_moved(head, 0, head + tail, 0);
    assert(head.subrange(0, head.len() as int) =~= head);
    crate::records::lemma_header_fields(h);
}

/// Every listed key has an offset.
pub open spec fn listed(keys: Seq<Seq<char>>, offsets: Offsets) -> bool {
    forall|j: int| 0 <= j < keys.len() ==> offsets.contains_key(#[trigger] keys[j])
}

/// Every key that has an offset is listed.
pub open spec fn covered(offsets: Offsets, keys: Seq<Seq<char>>) -> bool {
    forall|k: Seq<char>| #[trigger] offsets.contains_key(k) ==> keys.contains(k)
}

/// No key is listed twice.
pub open spec fn distinct(keys: Seq<Seq<char>>) -> bool {
    forall|a: int, b: int| 0 <= a < keys.len() && 0 <= b < keys.len() && a != b ==> keys[a] != keys[b]
}

/// Walking a list of distinct keys: the key at `i` is none of those before it,
/// and with it the keys up to `i` are those before it and itself.
pub proof fn lemma_next_key(keys: Seq<Seq<char>>, i: int, fresh: Offsets)
    requires
        0 <= i < keys.len(),
        distinct(keys),
        covered(fresh, keys.take(i)),
    ensures
        !fresh.contains_key(keys[i]),
        keys.take(i).push(keys[i]) == keys.take(i + 1),
        keys.take(i + 1).drop_last() == keys.take(i),
        keys.take(i + 1).last() == keys[i],
{
    if fresh.contains_key(keys[i]) {
        let j = keys.take(i).index_of(keys[i]);
        assert(keys.take(i)[j] == keys[i]);
        assert(keys[j] == keys[i]);
    }
    assert(keys.take(i).push(keys[i]) =~= keys.take(i + 1));
    assert(keys.take(i + 1).drop_last() =~= keys.take(i));
}

/// One step of a replay: the record at `at` is taken in, and the offsets
/// stay sound in the part of the log that was walked.
pub proof fn lemma_replay_step(log: Seq<u8>, header_len: int, at: int, offsets: Offsets)
    requires
        0 <= header_len <= at <= log.len() <= u64::MAX,
        sound(log.take(at), header_len, offsets),
        entry_at(log, at).is_some(),
    ensures
        ({
            let (e, n) = entry_at(log, at).unwrap();
            &&& at + n <= log.len()
            &&& n >= 5
            &&& frame_len(log, at) == Some(n)
            &&& sound(log.take(at + n), header_len, apply(offsets, e, at))
        }),
{
    let (e, n) = entry_at(log, at).unwrap();
    let rec = log.subrange(at, at + n);
    assert(log.take(at + n) =~= log.take(at) + rec);
    lemma_entry_added(log.take(at), header_len, offsets, rec, e);
}

/// A log with something behind it that holds no record is replayed as the
/// log alone.
pub proof fn lemma_scan_tail(log: Seq<u8>, tail: Seq<u8>, at: int, listing: Listing, step: Step)
    requires
        0 <= at <= log.len(),
        scan(log, at, listing, step).1 == log.len(),
        scan(log + tail, log.len() as int, scan(log, at, listing, step).0, step).1 == log.len(),
    ensures
        scan(log + tail, at, listing, step) == scan(log, at, listing, step),
    decreases log.len() - at,
{
    let stepped = match frame_len(log, at) {
        Some(n) => match document_at(log, at) {
            Some((fields, _)) => step(listing, fields, at),
            None => None,
        },
        None => None,
    };
    if stepped.is_some() {
        let n = frame_len(log, at).unwrap();
        lemma_frame_kept(log, tail, at);
        lemma_scan_tail(log, tail, at + n, stepped.unwrap(), step);
    } else {
        lemma_scan_stops(log + tail, at, listing, step);
    }
}

/// A walk that stops where it began gives the offsets that it began with.
pub proof fn lemma_scan_stops(log: Seq<u8>, at: int, listing: Listing, step: Step)
    requires
        0 <= at <= log.len(),
        scan(log, at, listing, step).1 == at,
    ensures
        scan(log, at, listing, step).0 == listing,
{
    match frame_len(log, at) {
        Some(n) => match document_at(log, at) {
            Some((fields, _)) => match step(listing, fields, at) {
                Some(next) => lemma_scan_bounds(log, at + n, next, step),
                None => {},
            },
            None => {},
        },
        None => {},
    }
}

/// The offsets of the keys that are listed.
pub open spec fn partial(keys: Seq<Seq<char>>, offsets: Offsets) -> Offsets {
    Map::new(|k: Seq<char>| keys.contains(k) && offsets.contains_key(k), |k: Seq<char>| offsets[k])
}

/// The index record of a key.
pub open spec fn index_entry(offsets: Offsets, key: Seq<char>) -> IndexEntryView {
    IndexEntryView { key, offset: offsets[key] }
}

/// The image of the index file: the index record of each key, in the order of `keys`.
pub open spec fn index_image(keys: Seq<Seq<char>>, offsets: Offsets) -> Seq<u8>
    decreases keys.len(),
{
    if keys.len() == 0 {
        Seq::empty()
    } else {
        index_image(keys.drop_last(), offsets) + index_entry_bytes(index_entry(offsets, keys.last()))
    }
}

/// The index record of every listed key can be written so that it reads back.
pub open spec fn index_encodes(keys: Seq<Seq<char>>, offsets: Offsets) -> bool {
    forall|j: int| 0 <= j < keys.len() ==> index_entry_encodes(index_entry(offsets, #[trigger] keys[j]))
}

/// The image of an index file is read to its end, and gives the keys as
/// they were listed and the offset of each.
pub proof fn lemma_index_image(keys: Seq<Seq<char>>, offsets: Offsets)
    requires
        index_encodes(keys, offsets),
        listed(keys, offsets),
        distinct(keys),
    ensures
        load(index_image(keys, offsets)) == (
            Listing { keys, offsets: partial(keys, offsets) },
            index_image(keys, offsets).len() as int,
        ),
    decreases keys.len(),
{
    if keys.len() == 0 {
        assert(partial(keys, offsets) =~= Map::<Seq<char>, u64>::empty());
        assert(keys =~= Seq::<Seq<char>>::empty());
    } else {
        let front = keys.drop_last();
        let k = keys.last();
        let e = index_entry(offsets, k);
        let rec = index_entry_bytes(e);
        assert forall|j: int| 0 <= j < front.len() implies index_entry_encodes(
            index_entry(offsets, #[trigger] front[j]),
        ) && offsets.contains_key(front[j]) by {
            assert(front[j] == keys[j]);
        }
        assert(distinct(front)) by {
            assert forall|a: int, b: int| 0 <= a < front.len() && 0 <= b < front.len() && a != b implies front[a]
                != front[b] by {
                assert(front[a] == keys[a] && front[b] == keys[b]);
            }
        }
        lemma_index_image(front, offsets);
        assert(keys[keys.len() - 1] == k);
        crate::records::lemma_index_entry_fields(e);
        lemma_scan_added(index_image(front, offsets), rec, 0, nothing(), index_step());
        assert forall|x: Seq<char>| keys.contains(x) <==> (front.contains(x) || x == k) by {
            if keys.contains(x) {
                let j = keys.index_of(x);
                if j < front.len() {
                    assert(front[j] == x);
                }
            }
            if front.contains(x) {
                let j = front.index_of(x);
                assert(keys[j] == x);
            }
        }
        assert(!front.contains(k)) by {
            if front.contains(k) {
                let j = front.index_of(k);
                assert(keys[j] == k);
            }
        }
        assert(partial(front, offsets).insert(k, offsets[k]) =~= partial(keys, offsets));
        assert(front.push(k) =~= keys);
    }
}

/// Where the keys that are listed are the keys that have an offset, the
/// offsets of the listed keys are all the offsets.
pub proof fn lemma_partial_all(keys: Seq<Seq<char>>, offsets: Offsets)
    requires
        covered(offsets, keys),
    ensures
        partial(keys, offsets) == offsets,
{
}

} // verus!
