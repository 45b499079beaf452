//! What holds of the store over several operations.

use vstd::prelude::*;
use crate::errors::KvsError;
use crate::log::{contents, entry_step, load, nothing, replay, update};
use crate::records::{EntryView, entry_at, entry_fields, header_bytes};
use crate::store::{KvStore, closed_head, session_head};
use crate::codec::encodes;
use crate::index::after_set;

verus! {

/// The contents after a run of records that are written one after the
/// other, beginning with the contents `start`.
pub open spec fn run(start: Map<Seq<char>, Seq<char>>, ops: Seq<EntryView>) -> Map<Seq<char>, Seq<char>>
    decreases ops.len(),
{
    if ops.len() == 0 {
        start
    } else {
        update(run(start, ops.drop_last()), ops.last())
    }
}

/// What the latest record of `key` in a run leaves the key with: the value
/// of a `SET`, nothing after a `DELETE`, and what the key had at the start
/// where the run holds no record of it.
pub open spec fn latest(start: Map<Seq<char>, Seq<char>>, ops: Seq<EntryView>, key: Seq<char>) -> Option<Seq<char>>
    decreases ops.len(),
{
    if ops.len() == 0 {
        if start.contains_key(key) {
            Some(start[key])
        } else {
            None
        }
    } else {
        match ops.last() {
            EntryView::SET(k, v) => if k == key {
                Some(v)
            } else {
                latest(start, ops.drop_last(), key)
            },
            EntryView::DELETE(k) => if k == key {
                None
            } else {
                latest(start, ops.drop_last(), key)
            },
        }
    }
}

/// A record that is written brings the contents up to date; one that
/// cannot be written changes nothing.
pub proof fn law_write_updates(before: KvStore, after: KvStore, e: EntryView, r: Result<(), KvsError>)
    requires
        after.put(&before, e, r),
    ensures
        after.view() == if encodes(entry_fields(e)) {
            update(before.view(), e)
        } else {
            before.view()
        },
        r is Ok ==> encodes(entry_fields(e)),
{
}

/// After every run of writes, each key has the value of its latest `SET`
/// that no `DELETE` of the key follows, and no value otherwise.
pub proof fn law_get_follows_latest(start: Map<Seq<char>, Seq<char>>, ops: Seq<EntryView>, key: Seq<char>)
    ensures
        match latest(start, ops, key) {
            Some(v) => run(start, ops).contains_key(key) && run(start, ops)[key] == v,
            None => !run(start, ops).contains_key(key),
        },
    decreases ops.len(),
{
    if ops.len() > 0 {
        law_get_follows_latest(start, ops.drop_last(), key);
    }
}

/// A key that was given a value has that value.
pub proof fn law_set_get(before: KvStore, after: KvStore, key: Seq<char>, value: Seq<char>, r: Result<(), KvsError>)
    requires
        after.put(&before, EntryView::SET(key, value), r),
        r is Ok,
    ensures
        after.view().contains_key(key),
        after.view()[key] == value,
{
}

/// A key that was given two values, one after the other, has the second.
pub proof fn law_set_set_get(
    before: KvStore,
    between: KvStore,
    after: KvStore,
    key: Seq<char>,
    first: Seq<char>,
    second: Seq<char>,
    r1: Result<(), KvsError>,
    r2: Result<(), KvsError>,
)
    requires
        between.put(&before, EntryView::SET(key, first), r1),
        after.put(&between, EntryView::SET(key, second), r2),
        r1 is Ok,
        r2 is Ok,
    ensures
        after.view().contains_key(key),
        after.view()[key] == second,
        after.view() == before.view().insert(key, second),
{
}

/// A key that was given a value and then removed has no value.
pub proof fn law_set_remove_get(
    before: KvStore,
    between: KvStore,
    after: KvStore,
    key: Seq<char>,
    value: Seq<char>,
    r1: Result<(), KvsError>,
    r2: Result<(), KvsError>,
)
    requires
        between.put(&before, EntryView::SET(key, value), r1),
        after.put(&between, EntryView::DELETE(key), r2),
        r1 is Ok,
        r2 is Ok,
    ensures
        !after.view().contains_key(key),
        after.view() == before.view().remove(key),
{
}

/// Two `SET` records of one key may be taken into the index in either
/// order: the key ends with the later of the two offsets, or with a still
/// later one that the index held.
pub proof fn law_sets_in_any_order(index: Map<Seq<char>, u64>, key: Seq<char>, first: u64, second: u64)
    ensures
        after_set(after_set(index, key, first), key, second) == after_set(after_set(index, key, second), key, first),
        after_set(after_set(index, key, first), key, second).contains_key(key),
        after_set(after_set(index, key, first), key, second)[key] >= first,
        after_set(after_set(index, key, first), key, second)[key] >= second,
        forall|k: Seq<char>|
            k != key ==> (#[trigger] after_set(after_set(index, key, first), key, second).contains_key(k)
                <==> index.contains_key(k)),
{
}

/// Right after a compaction the data file holds the header and the live
/// records, each once, and nothing else: it is no longer than the header and
/// twice the live records.
pub proof fn law_compaction_reclaims(before: KvStore, after: KvStore)
    requires
        before.wf(),
        after.wf(),
        after.compacted_from(&before),
    ensures
        after.log().len() == after.head_len() + before.body().len(),
        after.log().len() <= 2 * before.body().len() + after.head_len(),
        after.view() == before.view(),
        after.head().next_compaction_size >= 2 * after.log().len(),
{
}

/// A write that succeeds leaves the data file below the threshold, or
/// compacted: the header and the live records, each once.
pub proof fn law_write_compacts(before: KvStore, after: KvStore, e: EntryView, r: Result<(), KvsError>)
    requires
        after.put(&before, e, r),
        r is Ok,
    ensures
        after.log().len() < before.head().next_compaction_size || after.log().len() == after.head_len()
            + before.body_with(e).len(),
{
}

/// The index file that a close hands out, when it is read, gives the
/// offsets of the index, and is read to its end.
pub proof fn law_index_file_reproduces(store: KvStore, closed: Result<(Vec<u8>, Vec<u8>), KvsError>)
    requires
        store.wf(),
        store.closed(closed),
        closed is Ok,
    ensures
        load(closed->Ok_0.1@) == (store.listing(), closed->Ok_0.1@.len() as int),
{
    store.lemma_keys();
    crate::log::lemma_index_image(store.keys(), store.offsets());
    crate::log::lemma_partial_all(store.keys(), store.offsets());
}

/// Closing a store and opening it again on what the close handed out gives
/// the contents that the store had. This is stated of a store whose index
/// is what a replay of its data file gives, or that holds a key.
pub proof fn law_reopen(
    store: KvStore,
    closed: Result<(Vec<u8>, Vec<u8>), KvsError>,
    now: u64,
    reopened: Result<KvStore, KvsError>,
)
    requires
        store.wf(),
        store.consistent() || store.keys().len() > 0,
        store.closed(closed),
        closed is Ok,
        KvStore::opened(closed->Ok_0.0@, closed->Ok_0.1@, now, reopened),
        reopened is Ok,
    ensures
        reopened->Ok_0.view() == store.view(),
        reopened->Ok_0.listing() == store.listing(),
{
    let data = closed->Ok_0.0@;
    let head_len = store.head_len();
    let shut = closed_head(store.head());
    let rest = store.log().skip(head_len);
    crate::log::lemma_header_installed(header_bytes(shut), rest, shut);
    let head = session_head(shut, now);
    assert(data.skip(head_len) =~= rest);
    crate::log::lemma_header_replaced(store.log(), head_len, store.offsets(), header_bytes(head));
    store.lemma_keys();
    crate::log::lemma_index_image(store.keys(), store.offsets());
    crate::log::lemma_partial_all(store.keys(), store.offsets());
    let f = store.head().flags;
    assert((f & !1u64) & 1u64 != 1u64) by (bit_vector);
}

/// Opening the data file of a session that never closed, whatever the
/// index file holds and whatever unfinished record lies behind the last
/// record of the data file, gives the contents that the store had, and cuts
/// the unfinished record off. This is stated of a store whose index is what
/// a replay of its data file gives.
pub proof fn law_recover(
    store: KvStore,
    tail: Seq<u8>,
    index_file: Seq<u8>,
    now: u64,
    reopened: Result<KvStore, KvsError>,
)
    requires
        store.wf(),
        store.consistent(),
        entry_at(store.log() + tail, store.log().len() as int).is_none(),
        KvStore::opened(store.log() + tail, index_file, now, reopened),
        reopened is Ok,
    ensures
        reopened->Ok_0.view() == store.view(),
        reopened->Ok_0.listing() == store.listing(),
        reopened->Ok_0.log().len() == store.log().len(),
{
    let log = store.log();
    let data = log + tail;
    let head_len = store.head_len();
    crate::log::lemma_frame_kept(log, tail, 0);
    let head = session_head(store.head(), now);
    let image = header_bytes(head) + data.skip(head_len);
    crate::log::lemma_scan_tail(log, tail, head_len, nothing(), entry_step());
    crate::log::lemma_scan_same(data, image, head_len, nothing(), entry_step());
    assert(image.take(log.len() as int) =~= header_bytes(head) + log.skip(head_len));
    crate::log::lemma_header_replaced(log, head_len, store.offsets(), header_bytes(head));
}

} // verus!
