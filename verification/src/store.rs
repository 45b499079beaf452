//! The log-structured store: the image of the data file, the index into
//! it, the append path, the read path, compaction, recovery and shutdown.

use vstd::prelude::*;
use crate::codec::{encodes, frame_at};
use crate::errors::{KvsError, KvsErrorView};
use crate::index::Index;
use crate::log::{Listing, Offsets, carried, contents, distinct, listed, live, replay, set_at, sound};
use crate::log::{entry_step, index_encodes, index_image, index_step, load, partial, scan};
use crate::log::{nothing, take_in, update};
use crate::records::{EntryView, KvHeader, KvsEntries, KvsIndexEntries, SESSION_DIRTY};
use crate::records::{dirty, entry_bytes, entry_fields, header_at, header_bytes, header_encodes};

verus! {

/// The version of the file format that this library reads and writes.
pub const BUILD_NUMBER: u64 = 1200;

/// The smallest size of the data file, in bytes, at which the log is compacted.
pub const MIN_COMPACTION_THRESHOLD: u64 = 32768;

/// The name of the data file in a directory.
pub const DATA_FILE: &'static str = "kvs.db";

/// The name of the index file in a directory.
pub const INDEX_FILE: &'static str = "kvs.dir";

/// The extension of the index file that stands beside a data file.
pub const INDEX_EXTENSION: &'static str = "dir";

/// The size at which the log is compacted next, once a compaction has left
/// a data file of `len` bytes: twice that, but no less than
/// `MIN_COMPACTION_THRESHOLD`.
pub open spec fn threshold_after(len: int) -> int {
    if 2 * len > MIN_COMPACTION_THRESHOLD {
        2 * len
    } else {
        MIN_COMPACTION_THRESHOLD as int
    }
}

/// The header after a compaction that left a data file of `len` bytes.
pub open spec fn compacted_head(head: KvHeader, len: int) -> KvHeader {
    KvHeader {
        build_number: head.build_number,
        last_open: head.last_open,
        next_compaction_size: threshold_after(len) as u64,
        flags: head.flags,
    }
}

/// A compaction can end: the new threshold is a 64-bit number, and the
/// header that holds it can be written in the place of the old one.
pub open spec fn can_compact(head: KvHeader, head_len: int, body_len: int) -> bool {
    &&& 2 * (head_len + body_len) <= u64::MAX
    &&& header_encodes(compacted_head(head, head_len + body_len))
    &&& header_bytes(compacted_head(head, head_len + body_len)).len() == head_len
}

/// The header of a data file that is new.
pub open spec fn fresh_head() -> KvHeader {
    KvHeader { build_number: BUILD_NUMBER, last_open: 0, next_compaction_size: MIN_COMPACTION_THRESHOLD, flags: 0 }
}

/// The header of a session that is opened at `now` on a data file whose
/// header was `found`: the time of opening, and the session-dirty bit set.
pub open spec fn session_head(found: KvHeader, now: u64) -> KvHeader {
    KvHeader {
        build_number: found.build_number,
        last_open: now,
        next_compaction_size: found.next_compaction_size,
        flags: found.flags | SESSION_DIRTY,
    }
}

/// The header of a session that is closed: the session-dirty bit cleared.
pub open spec fn closed_head(head: KvHeader) -> KvHeader {
    KvHeader {
        build_number: head.build_number,
        last_open: head.last_open,
        next_compaction_size: head.next_compaction_size,
        flags: head.flags & !SESSION_DIRTY,
    }
}

/// The header that opening finds in a data file, and the length of its
/// frame: the header of a new file, with no frame, where the file is empty.
/// `InvalidDatabaseFormat` where the file does not begin with a header,
/// `IncompatibleDatabaseVersion` where the header is of another version.
pub open spec fn found_head(data: Seq<u8>) -> Result<(KvHeader, int), KvsErrorView> {
    if data.len() == 0 {
        Ok((fresh_head(), 0))
    } else {
        match header_at(data) {
            None => Err(KvsErrorView::InvalidDatabaseFormat),
            Some((h, n)) => if h.build_number != BUILD_NUMBER {
                Err(KvsErrorView::IncompatibleDatabaseVersion(h.build_number, BUILD_NUMBER))
            } else {
                Ok((h, n))
            },
        }
    }
}

/// Whether opening takes the offsets from the index file: the last session
/// was closed, the index file is not empty, and every offset that it holds
/// points, behind the header, at a `SET` record of its key.
pub open spec fn index_file_serves(found: KvHeader, image: Seq<u8>, head_len: int, index_file: Seq<u8>) -> bool {
    !dirty(found.flags) && index_file.len() > 0 && sound(image, head_len, load(index_file).0.offsets)
}

/// The count after `count`, in 64 bits: it begins again at 0 behind the
/// largest number.
pub open spec fn counted_on(count: u64) -> u64 {
    if count == u64::MAX {
        0
    } else {
        (count + 1) as u64
    }
}

/// The store. It holds the image of the data file: the header and, behind
/// it, every record that was appended. The index says for each live key at
/// which offset of the image its latest `SET` record starts.
pub struct KvStore {
    header: KvHeader,
    header_len: usize,
    data: Vec<u8>,
    index: Index,
    modified: bool,
    compactions: u64,
}

/// Reads the record at `offset` of `log` for `key`: the value of the `SET`
/// record of that key that is framed there. `InvalidDataEntry` where no
/// record is framed there, or one that is no `SET`, or one of another key.
pub fn fetch_at(log: &[u8], key: &str, offset: u64) -> (r: Result<String, KvsError>)
    ensures
        match r {
            Ok(v) => set_at(log@, key@, offset as int) == Some(v@),
            Err(e) => e@ == KvsErrorView::InvalidDataEntry && set_at(log@, key@, offset as int).is_none(),
        },
{
    if offset >= log.len() as u64 {
        return Err(KvsError::InvalidDataEntry);
    }
    match KvsEntries::decode_at(log, offset as usize) {
        Some((KvsEntries::SET(k, v), _)) => {
            if crate::text::same_str(k.as_str(), key) {
                Ok(v)
            } else {
                Err(KvsError::InvalidDataEntry)
            }
        },
        _ => Err(KvsError::InvalidDataEntry),
    }
}

/// Copies the `SET` record of `key` that is framed at `offset` in `log` to
/// the end of `buf`. `InvalidDataEntry` where no such record is framed there.
fn copy_record(log: &[u8], key: &str, offset: u64, buf: &mut Vec<u8>) -> (r: Result<(), KvsError>)
    ensures
        match r {
            Ok(()) => set_at(log@, key@, offset as int).is_some() && final(buf)@ == old(buf)@ + frame_at(
                log@,
                offset as int,
            ).unwrap(),
            Err(e) => e@ == KvsErrorView::InvalidDataEntry && set_at(log@, key@, offset as int).is_none()
                && final(buf)@ == old(buf)@,
        },
{
    if offset >= log.len() as u64 {
        return Err(KvsError::InvalidDataEntry);
    }
    let start: usize = offset as usize;
    match KvsEntries::decode_at(log, start) {
        Some((KvsEntries::SET(k, _), n)) => {
            if crate::text::same_str(k.as_str(), key) {
                assert(start + n <= log.len());
                buf.extend_from_slice(&log[start..start + n]);
                Ok(())
            } else {
                Err(KvsError::InvalidDataEntry)
            }
        },
        _ => Err(KvsError::InvalidDataEntry),
    }
}

/// Reads an index file record by record, as far as it can be read, into a
/// new index. A key that the file holds twice keeps its first place and its
/// later offset.
pub fn read_index(file: &[u8]) -> (r: Index)
    ensures
        r.wf(),
        r.listing() == load(file@).0,
{
    let mut index = Index::new();
    let mut at: usize = 0;
    loop
        invariant
            index.wf(),
            at <= file.len(),
            load(file@) == scan(file@, at as int, index.listing(), index_step()),
        decreases file.len() - at,
    {
        match KvsIndexEntries::read_at(file, at) {
            Ok(Some((e, n))) => {
                assert(at + n <= file.len());
                index.insert(e.key, e.offset);
                at = at + n;
            },
            // the end of the file, or what cannot be read: the walk stops
            _ => {
                return index;
            },
        }
    }
}

/// Replays the data file from behind its header, as far as its records can
/// be read, into a new index. Hands out the index and the offset behind the
/// last record that was read.
pub fn reindex(log: &[u8], head_len: usize) -> (r: (Index, usize))
    requires
        head_len <= log.len(),
    ensures
        r.0.wf(),
        (r.0.listing(), r.1 as int) == replay(log@, head_len as int),
        head_len <= r.1 <= log.len(),
        sound(log@.take(r.1 as int), head_len as int, r.0@),
{
    let mut index = Index::new();
    let mut at: usize = head_len;
    loop
        invariant
            index.wf(),
            head_len <= at <= log.len(),
            replay(log@, head_len as int) == scan(log@, at as int, index.listing(), entry_step()),
            sound(log@.take(at as int), head_len as int, index@),
        decreases log.len() - at,
    {
        match KvsEntries::read_at(log, at) {
            Ok(Some((e, n))) => {
                proof {
                    crate::log::lemma_replay_step(log@, head_len as int, at as int, index@);
                }
                match e {
                    KvsEntries::SET(key, _) => {
                        index.insert(key, at as u64);
                    },
                    KvsEntries::DELETE(key) => {
                        index.remove(key.as_str());
                    },
                }
                at = at + n;
            },
            // the end of the file, or what cannot be read: the replay stops
            _ => {
                return (index, at);
            },
        }
    }
}

/// Whether every key of the index points, behind the header, at a `SET`
/// record of that key.
pub fn check_index(log: &[u8], head_len: usize, index: &Index) -> (r: bool)
    requires
        index.wf(),
    ensures
        r == sound(log@, head_len as int, index@),
{
    proof {
        index.lemma_keys();
    }
    let count: usize = index.len();
    let mut i: usize = 0;
    while i < count
        invariant
            i <= count,
            count == index.keys().len(),
            listed(index.keys(), index@),
            crate::log::covered(index@, index.keys()),
            sound(log@, head_len as int, partial(index.keys().take(i as int), index@)),
        decreases count - i,
    {
        let key = index.key_at(i);
        let offset = match index.get(key.as_str()) {
            Some(offset) => offset,
            None => {
                return false;
            },
        };
        if offset < head_len as u64 {
            return false;
        }
        match fetch_at(log, key.as_str(), offset) {
            Ok(_) => {},
            Err(_) => {
                return false;
            },
        }
        proof {
            let before = partial(index.keys().take(i as int), index@);
            let after = partial(index.keys().take(i + 1), index@);
            assert forall|k: Seq<char>| #[trigger] after.contains_key(k) implies head_len <= after[k] < log@.len()
                && set_at(log@, k, after[k] as int).is_some() by {
                if k != key@ {
                    assert(before.contains_key(k));
                }
            }
        }
        i += 1;
    }
    proof {
        assert(index.keys().take(i as int) =~= index.keys());
        assert(partial(index.keys(), index@) =~= index@);
    }
    true
}

impl KvStore {
    /// The image of the data file.
    pub closed spec fn log(&self) -> Seq<u8> {
        self.data@
    }

    /// The offset of each live key.
    pub closed spec fn offsets(&self) -> Offsets {
        self.index@
    }

    /// The live keys, in the order in which the index is walked.
    pub closed spec fn keys(&self) -> Seq<Seq<char>> {
        self.index.keys()
    }

    /// The header as the store holds it.
    pub closed spec fn head(&self) -> KvHeader {
        self.header
    }

    /// The length of the header's frame.
    pub closed spec fn head_len(&self) -> int {
        self.header_len as int
    }

    /// Whether the index has changed since the index file was last written.
    pub closed spec fn unsaved(&self) -> bool {
        self.modified
    }

    /// How often the log was compacted since the store was opened, counted
    /// in 64 bits.
    pub closed spec fn rewrites(&self) -> u64 {
        self.compactions
    }

    /// The index is well-formed.
    pub closed spec fn index_wf(&self) -> bool {
        self.index.wf()
    }

    /// The store is well-formed: the image begins with the header that the
    /// store holds, of this format's version and with the session-dirty bit
    /// set, and every key of the index points at a `SET` record of that key
    /// behind the header.
    pub open spec fn wf(&self) -> bool {
        &&& self.index_wf()
        &&& header_at(self.log()) == Some((self.head(), self.head_len()))
        &&& self.head().build_number == BUILD_NUMBER
        &&& dirty(self.head().flags)
        &&& sound(self.log(), self.head_len(), self.offsets())
    }

    /// The keys as the index lists them, and the offset of each.
    pub open spec fn listing(&self) -> Listing {
        Listing { keys: self.keys(), offsets: self.offsets() }
    }

    /// The index is what a replay of the image gives, and the replay reads
    /// the image to its end.
    pub open spec fn consistent(&self) -> bool {
        replay(self.log(), self.head_len()) == (self.listing(), self.log().len() as int)
    }

    /// The value of each live key.
    pub open spec fn view(&self) -> Map<Seq<char>, Seq<char>> {
        contents(self.log(), self.offsets())
    }

    /// The keys that are listed are the keys that have an offset, each once.
    pub proof fn lemma_keys(&self)
        requires
            self.wf(),
        ensures
            listed(self.keys(), self.offsets()),
            crate::log::covered(self.offsets(), self.keys()),
            distinct(self.keys()),
    {
        self.index.lemma_keys();
    }

    /// The image of the data file.
    pub fn data(&self) -> (r: &Vec<u8>)
        ensures
            r@ == self.log(),
    {
        &self.data
    }

    /// The offset behind the last record: the length of the data file.
    pub fn db_offset(&self) -> (r: u64)
        ensures
            r == self.log().len(),
    {
        self.data.len() as u64
    }

    /// The header.
    pub fn header(&self) -> (r: KvHeader)
        ensures
            r == self.head(),
    {
        self.header
    }

    /// The length of the header's frame: the offset of the first record.
    pub fn header_len(&self) -> (r: usize)
        ensures
            r == self.head_len(),
    {
        self.header_len
    }

    /// How often the log was compacted since the store was opened, counted
    /// in 64 bits. Where the number has changed, the data file is to be
    /// written anew from the image; else what was appended is to be written
    /// behind what the file holds.
    pub fn compactions(&self) -> (r: u64)
        ensures
            r == self.rewrites(),
    {
        self.compactions
    }

    /// Whether the index has changed since the index file was last written.
    pub fn modified(&self) -> (r: bool)
        ensures
            r == self.unsaved(),
    {
        self.modified
    }

    /// Reads the value of a key: looks the key up in the index and reads the
    /// record at its offset.
    fn fetch(&self, key: &str) -> (r: Result<Option<String>, KvsError>)
        ensures
            match r {
                Ok(Some(v)) => self.offsets().contains_key(key@) && set_at(
                    self.log(),
                    key@,
                    self.offsets()[key@] as int,
                ) == Some(v@),
                Ok(None) => !self.offsets().contains_key(key@),
                Err(e) => e@ == KvsErrorView::InvalidDataEntry && self.offsets().contains_key(key@) && set_at(
                    self.log(),
                    key@,
                    self.offsets()[key@] as int,
                ).is_none(),
            },
    {
        match self.index.get(key) {
            Some(offset) => match fetch_at(self.data.as_slice(), key, offset) {
                Ok(v) => Ok(Some(v)),
                Err(e) => Err(e),
            },
            None => Ok(None),
        }
    }

    /// What reading `key` comes to: the value of the key, or `None` where
    /// the key has none.
    pub open spec fn got(&self, key: Seq<char>, r: Result<Option<String>, KvsError>) -> bool {
        match r {
            Ok(Some(v)) => self.view().contains_key(key) && self.view()[key] == v@,
            Ok(None) => !self.view().contains_key(key),
            Err(_) => false,
        }
    }

    /// What removing `key` from `before` comes to: `KeyNotExist` where the
    /// key has no value, and then nothing changes; else what writing a
    /// `DELETE` record of the key comes to.
    pub open spec fn removed(&self, before: &KvStore, key: Seq<char>, r: Result<(), KvsError>) -> bool {
        if before.view().contains_key(key) {
            self.put(before, EntryView::DELETE(key), r)
        } else {
            r is Err && r->Err_0@ == KvsErrorView::KeyNotExist(key) && *self == *before
        }
    }

    /// The value of a key, or `None` where the key has none.
    pub fn get(&self, key: String) -> (r: Result<Option<String>, KvsError>)
        requires
            self.wf(),
        ensures
            self.got(key@, r),
    {
        self.fetch(key.as_str())
    }

    /// Appends a record to the image and takes it into the index.
    fn writeback(&mut self, entry: KvsEntries) -> (r: Result<(), KvsError>)
        requires
            old(self).wf(),
        ensures
            final(self).wf(),
            match r {
                Ok(()) => {
                    &&& encodes(entry_fields(entry@))
                    &&& final(self).log() == old(self).log() + entry_bytes(entry@)
                    &&& final(self).written(old(self), entry@)
                },
                Err(e) => e@ == KvsErrorView::SerializationError && !encodes(entry_fields(entry@)) && *final(self)
                    == *old(self),
            },
    {
        let bytes = match entry.encode() {
            Some(bytes) => bytes,
            None => {
                return Err(KvsError::SerializationError);
            },
        };
        let offset: u64 = self.data.len() as u64;
        proof {
            crate::records::lemma_entry_fields(entry@);
            crate::log::lemma_entry_added(self.log(), self.head_len(), self.offsets(), bytes@, entry@);
            if self.consistent() {
                crate::log::lemma_replay_added(self.log(), self.head_len(), bytes@, entry@);
            }
            crate::log::lemma_frame_kept(self.log(), bytes@, 0);
        }
        self.data.extend_from_slice(bytes.as_slice());
        assert(self.data@ =~= old(self).data@ + bytes@);
        match entry {
            KvsEntries::SET(key, _) => {
                self.index.record_set(key, offset);
            },
            KvsEntries::DELETE(key) => {
                self.index.record_delete(key.as_str(), offset);
            },
        }
        self.modified = true;
        Ok(())
    }

    /// The image once the record `e` is appended.
    pub open spec fn log_with(&self, e: EntryView) -> Seq<u8> {
        self.log() + entry_bytes(e)
    }

    /// The index once the record `e` is appended and taken in.
    pub open spec fn listing_with(&self, e: EntryView) -> Listing {
        take_in(self.listing(), e, self.log().len() as int)
    }

    /// The frames of the records that are live once the record `e` is appended.
    pub open spec fn body_with(&self, e: EntryView) -> Seq<u8> {
        live(self.log_with(e), self.listing_with(e).keys, self.listing_with(e).offsets)
    }

    /// Whether the data file reaches the threshold once the record `e` is appended.
    pub open spec fn due_with(&self, e: EntryView) -> bool {
        self.log_with(e).len() >= self.head().next_compaction_size
    }

    /// Whether the compaction that follows the record `e` can end.
    pub open spec fn can_compact_with(&self, e: EntryView) -> bool {
        can_compact(self.head(), self.head_len(), self.body_with(e).len() as int)
    }

    /// `self` is `before` with the record `e` appended and taken in.
    pub open spec fn written(&self, before: &KvStore, e: EntryView) -> bool {
        &&& self.log() == before.log_with(e)
        &&& self.listing() == before.listing_with(e)
        &&& self.head() == before.head()
        &&& self.head_len() == before.head_len()
        &&& self.rewrites() == before.rewrites()
        &&& self.view() == update(before.view(), e)
        &&& self.unsaved()
        &&& before.consistent() ==> self.consistent()
    }

    /// `self` is `before` with the record `e` appended and taken in, and
    /// then compacted.
    pub open spec fn written_and_compacted(&self, before: &KvStore, e: EntryView) -> bool {
        &&& self.head() == compacted_head(before.head(), before.head_len() + before.body_with(e).len())
        &&& self.head_len() == before.head_len()
        &&& self.log() == header_bytes(self.head()) + before.body_with(e)
        &&& self.keys() == before.listing_with(e).keys
        &&& self.rewrites() == counted_on(before.rewrites())
        &&& self.view() == update(before.view(), e)
        &&& self.unsaved()
        &&& self.consistent()
    }

    /// What writing the record `e` to `before` comes to. Where the record
    /// cannot be written, nothing changes. Else the record is appended and
    /// taken in; where the data file then reaches the threshold, the log is
    /// compacted. Where the compaction cannot end, the record stays written
    /// and the error is handed on.
    pub open spec fn put(&self, before: &KvStore, e: EntryView, r: Result<(), KvsError>) -> bool {
        if !encodes(entry_fields(e)) {
            r is Err && r->Err_0@ == KvsErrorView::SerializationError && *self == *before
        } else if !before.due_with(e) {
            r is Ok && self.written(before, e)
        } else if before.can_compact_with(e) {
            r is Ok && self.written_and_compacted(before, e)
        } else {
            r is Err && r->Err_0@ == KvsErrorView::SerializationError && self.written(before, e)
        }
    }

    /// Whether the data file has reached the size at which the log is compacted.
    pub open spec fn due(&self) -> bool {
        self.log().len() >= self.head().next_compaction_size
    }

    /// The frames of the live records, in the order of the keys.
    pub open spec fn body(&self) -> Seq<u8> {
        live(self.log(), self.keys(), self.offsets())
    }

    /// `self` is what a compaction makes of `before`, which can end: the
    /// image is the header and, behind it, the frame of each live record
    /// once; the header holds the new threshold; the contents are those of
    /// before.
    pub open spec fn compacted_from(&self, before: &KvStore) -> bool {
        &&& can_compact(before.head(), before.head_len(), before.body().len() as int)
        &&& self.head() == compacted_head(before.head(), before.head_len() + before.body().len())
        &&& self.head_len() == before.head_len()
        &&& self.log() == header_bytes(self.head()) + before.body()
        &&& self.keys() == before.keys()
        &&& self.rewrites() == counted_on(before.rewrites())
        &&& self.view() == before.view()
        &&& self.consistent()
        &&& self.unsaved()
    }

    /// Rewrites the log so that it holds one `SET` record for each live
    /// key, and sets the next threshold; does nothing where the data file
    /// is below the threshold.
    pub fn compaction(&mut self) -> (r: Result<(), KvsError>)
        requires
            old(self).wf(),
        ensures
            final(self).wf(),
            match r {
                Ok(()) => if old(self).due() {
                    final(self).compacted_from(old(self))
                } else {
                    *final(self) == *old(self)
                },
                Err(e) => e@ == KvsErrorView::SerializationError && old(self).due() && !can_compact(
                    old(self).head(),
                    old(self).head_len(),
                    old(self).body().len() as int,
                ) && *final(self) == *old(self),
            },
    {
        if (self.data.len() as u64) < self.header.next_compaction_size {
            return Ok(());
        }
        let head_len: usize = self.header_len;
        let count: usize = self.index.len();
        let mut buf: Vec<u8> = Vec::new();
        buf.extend_from_slice(&self.data[0..head_len]);
        let mut fresh = Index::new();
        proof {
            self.index.lemma_keys();
        }
        let mut i: usize = 0;
        while i < count
            invariant
                *self == *old(self),
                self.index_wf(),
                sound(self.log(), self.head_len(), self.offsets()),
                listed(self.keys(), self.offsets()),
                distinct(self.keys()),
                i <= count,
                count == self.keys().len(),
                head_len == self.head_len(),
                head_len <= buf.len(),
                buf@ == self.log().take(head_len as int) + live(self.log(), self.keys().take(i as int), self.offsets()),
                fresh.wf(),
                fresh.keys() == self.keys().take(i as int),
                sound(buf@, head_len as int, fresh@),
                carried(self.log(), self.offsets(), buf@, fresh@),
                replay(buf@, head_len as int) == (fresh.listing(), buf.len() as int),
            decreases count - i,
        {
            let key = self.index.key_at(i);
            let offset = match self.index.get(key.as_str()) {
                Some(offset) => offset,
                None => {
                    return Err(KvsError::InvalidDataEntry);
                },
            };
            let at: u64 = buf.len() as u64;
            proof {
                fresh.lemma_keys();
                crate::log::lemma_next_key(self.keys(), i as int, fresh@);
                crate::log::lemma_record_copied(
                    self.log(),
                    self.offsets(),
                    buf@,
                    head_len as int,
                    fresh.listing(),
                    key@,
                );
            }
            match copy_record(self.data.as_slice(), key.as_str(), offset, &mut buf) {
                Ok(()) => {},
                Err(e) => {
                    return Err(e);
                },
            }
            fresh.insert(key.clone(), at);
            i += 1;
        }
        proof {
            assert(self.keys().take(i as int) =~= self.keys());
            fresh.lemma_keys();
            crate::log::lemma_all_copied(self.log(), self.offsets(), buf@, fresh@);
        }
        let doubled: u64 = match (buf.len() as u64).checked_mul(2) {
            Some(doubled) => doubled,
            None => {
                return Err(KvsError::SerializationError);
            },
        };
        let threshold: u64 = if doubled > MIN_COMPACTION_THRESHOLD {
            doubled
        } else {
            MIN_COMPACTION_THRESHOLD
        };
        let header = KvHeader {
            build_number: self.header.build_number,
            last_open: self.header.last_open,
            next_compaction_size: threshold,
            flags: self.header.flags,
        };
        let mut image = match header.encode() {
            Some(bytes) => bytes,
            None => {
                return Err(KvsError::SerializationError);
            },
        };
        if image.len() != head_len {
            return Err(KvsError::SerializationError);
        }
        proof {
            crate::log::lemma_header_replaced(buf@, head_len as int, fresh@, image@);
            crate::log::lemma_header_installed(image@, buf@.skip(head_len as int), header);
            assert(buf@.skip(head_len as int) =~= self.body());
        }
        let end: usize = buf.len();
        image.extend_from_slice(&buf[head_len..end]);
        assert(image@ =~= header_bytes(header) + old(self).body());
        self.data = image;
        self.index = fresh;
        self.header = header;
        self.modified = true;
        self.compactions = if self.compactions == u64::MAX {
            0
        } else {
            self.compactions + 1
        };
        Ok(())
    }

    /// Compacts the log where the data file has reached the threshold; says
    /// whether it did.
    fn check_compaction(&mut self) -> (r: Result<bool, KvsError>)
        requires
            old(self).wf(),
        ensures
            final(self).wf(),
            match r {
                Ok(done) => done == old(self).due() && if done {
                    final(self).compacted_from(old(self))
                } else {
                    *final(self) == *old(self)
                },
                Err(e) => e@ == KvsErrorView::SerializationError && old(self).due() && !can_compact(
                    old(self).head(),
                    old(self).head_len(),
                    old(self).body().len() as int,
                ) && *final(self) == *old(self),
            },
    {
        if self.data.len() as u64 >= self.header.next_compaction_size {
            match self.compaction() {
                Ok(()) => Ok(true),
                Err(e) => Err(e),
            }
        } else {
            Ok(false)
        }
    }

    /// Writes a record: appends it, takes it into the index, and compacts
    /// the log where the data file has reached the threshold.
    fn write(&mut self, entry: KvsEntries) -> (r: Result<(), KvsError>)
        requires
            old(self).wf(),
        ensures
            final(self).wf(),
            final(self).put(old(self), entry@, r),
    {
        let ghost e = entry@;
        match self.writeback(entry) {
            Ok(()) => {},
            Err(e) => {
                return Err(e);
            },
        }
        match self.check_compaction() {
            Ok(_) => Ok(()),
            Err(e) => Err(e),
        }
    }

    /// Gives a key a value.
    pub fn set(&mut self, key: String, value: String) -> (r: Result<(), KvsError>)
        requires
            old(self).wf(),
        ensures
            final(self).wf(),
            final(self).put(old(self), EntryView::SET(key@, value@), r),
    {
        self.write(KvsEntries::SET(key, value))
    }

    /// Takes a key's value away. `KeyNotExist` where the key has none: then
    /// nothing changes.
    pub fn remove(&mut self, key: String) -> (r: Result<(), KvsError>)
        requires
            old(self).wf(),
        ensures
            final(self).wf(),
            final(self).removed(old(self), key@, r),
    {
        if !self.index.contains_key(key.as_str()) {
            return Err(KvsError::KeyNotExist(key));
        }
        self.write(KvsEntries::DELETE(key))
    }

    /// What opening a data file and an index file at `now` comes to.
    ///
    /// The header is found, or the open fails (see `found_head`). The
    /// session's header must be writable (`SerializationError`), and in the
    /// place of the one found (`InvalidDatabaseFormat`). The image is the
    /// session's header and what lay behind the old one. Where the index
    /// file serves, the offsets are those that it holds. Else the image is
    /// replayed: the offsets are those of the replay, and what lies behind
    /// the last record that could be read is cut off.
    pub open spec fn opened(data: Seq<u8>, index_file: Seq<u8>, now: u64, r: Result<KvStore, KvsError>) -> bool {
        match found_head(data) {
            Err(e) => r is Err && r->Err_0@ == e,
            Ok((found, n)) => {
                let head = session_head(found, now);
                let image = header_bytes(head) + data.skip(n);
                let head_len = header_bytes(head).len() as int;
                if !header_encodes(head) {
                    r is Err && r->Err_0@ == KvsErrorView::SerializationError
                } else if data.len() > 0 && head_len != n {
                    r is Err && r->Err_0@ == KvsErrorView::InvalidDatabaseFormat
                } else {
                    &&& r is Ok
                    &&& r->Ok_0.wf()
                    &&& r->Ok_0.head() == head
                    &&& r->Ok_0.head_len() == head_len
                    &&& r->Ok_0.rewrites() == 0
                    &&& if index_file_serves(found, image, head_len, index_file) {
                        &&& r->Ok_0.log() == image
                        &&& r->Ok_0.listing() == load(index_file).0
                        &&& !r->Ok_0.unsaved()
                    } else {
                        &&& r->Ok_0.log() == image.take(replay(image, head_len).1)
                        &&& r->Ok_0.listing() == replay(image, head_len).0
                        &&& r->Ok_0.unsaved()
                        &&& r->Ok_0.consistent()
                    }
                }
            },
        }
    }

    /// Opens a store on the image of a data file and the image of its index
    /// file, at the time `now` in milliseconds since the epoch: see `opened`.
    pub fn open(data: Vec<u8>, index_file: &[u8], now: u64) -> (r: Result<KvStore, KvsError>)
        ensures
            KvStore::opened(data@, index_file@, now, r),
    {
        let (found, n): (KvHeader, usize) = if data.len() == 0 {
            (
                KvHeader {
                    build_number: BUILD_NUMBER,
                    last_open: 0,
                    next_compaction_size: MIN_COMPACTION_THRESHOLD,
                    flags: 0,
                },
                0,
            )
        } else {
            match KvHeader::decode(data.as_slice()) {
                Some((h, n)) => {
                    if h.build_number != BUILD_NUMBER {
                        return Err(KvsError::IncompatibleDatabaseVersion(h.build_number, BUILD_NUMBER));
                    }
                    (h, n)
                },
                None => {
                    return Err(KvsError::InvalidDatabaseFormat);
                },
            }
        };
        let was_dirty: bool = found.flags & SESSION_DIRTY == SESSION_DIRTY;
        let header = KvHeader {
            build_number: found.build_number,
            last_open: now,
            next_compaction_size: found.next_compaction_size,
            flags: found.flags | SESSION_DIRTY,
        };
        let mut image = match header.encode() {
            Some(bytes) => bytes,
            None => {
                return Err(KvsError::SerializationError);
            },
        };
        let head_len: usize = image.len();
        if data.len() > 0 && head_len != n {
            return Err(KvsError::InvalidDatabaseFormat);
        }
        let total: usize = data.len();
        image.extend_from_slice(&data[n..total]);
        proof {
            assert(image@ =~= header_bytes(header) + data@.skip(n as int));
            crate::log::lemma_header_installed(header_bytes(header), data@.skip(n as int), header);
            let f = found.flags;
            assert((f | 1) & 1 == 1) by (bit_vector);
        }
        if !was_dirty && index_file.len() > 0 {
            let index = read_index(index_file);
            if check_index(image.as_slice(), head_len, &index) {
                return Ok(
                    KvStore { header, header_len: head_len, data: image, index, modified: false, compactions: 0 },
                );
            }
        }
        let (index, end) = reindex(image.as_slice(), head_len);
        proof {
            crate::log::lemma_scan_cut(image@, head_len as int, nothing(), entry_step());
            crate::log::lemma_frame_moved(image@, 0, image@.take(end as int), 0);
        }
        image.truncate(end);
        Ok(KvStore { header, header_len: head_len, data: image, index, modified: true, compactions: 0 })
    }

    /// The image of the index file: the index record of each live key, in
    /// the order of the keys.
    pub open spec fn index_file(&self) -> Seq<u8> {
        index_image(self.keys(), self.offsets())
    }

    /// Whether the index record of every live key can be written.
    pub open spec fn index_writable(&self) -> bool {
        index_encodes(self.keys(), self.offsets())
    }

    fn index_bytes(&self) -> (r: Option<Vec<u8>>)
        requires
            self.wf(),
        ensures
            match r {
                Some(bytes) => self.index_writable() && bytes@ == self.index_file(),
                None => !self.index_writable(),
            },
    {
        proof {
            self.index.lemma_keys();
        }
        let count: usize = self.index.len();
        let mut out: Vec<u8> = Vec::new();
        let mut i: usize = 0;
        while i < count
            invariant
                i <= count,
                count == self.keys().len(),
                listed(self.keys(), self.offsets()),
                out@ == index_image(self.keys().take(i as int), self.offsets()),
                index_encodes(self.keys().take(i as int), self.offsets()),
            decreases count - i,
        {
            let key = self.index.key_at(i);
            let offset = match self.index.get(key.as_str()) {
                Some(offset) => offset,
                None => {
                    return None;
                },
            };
            let entry = KvsIndexEntries { key: key.clone(), offset };
            match entry.encode() {
                Some(bytes) => {
                    out.extend_from_slice(bytes.as_slice());
                    proof {
                        let next = self.keys().take(i + 1);
                        assert(next.drop_last() =~= self.keys().take(i as int));
                    }
                },
                None => {
                    return None;
                },
            }
            i += 1;
        }
        assert(self.keys().take(i as int) =~= self.keys());
        Some(out)
    }

    /// The image of the index file, to be written in the place of the old
    /// one. From then on the index counts as saved.
    pub fn write_index(&mut self) -> (r: Result<Vec<u8>, KvsError>)
        requires
            old(self).wf(),
        ensures
            final(self).wf(),
            final(self).log() == old(self).log(),
            final(self).offsets() == old(self).offsets(),
            final(self).keys() == old(self).keys(),
            final(self).head() == old(self).head(),
            final(self).head_len() == old(self).head_len(),
            final(self).rewrites() == old(self).rewrites(),
            match r {
                Ok(bytes) => old(self).index_writable() && bytes@ == old(self).index_file() && !final(self).unsaved(),
                Err(e) => e@ == KvsErrorView::SerializationError && !old(self).index_writable() && *final(self)
                    == *old(self),
            },
    {
        match self.index_bytes() {
            Some(bytes) => {
                self.modified = false;
                Ok(bytes)
            },
            None => Err(KvsError::SerializationError),
        }
    }

    /// Whether the header of the closed session can be written in the place
    /// of the header.
    pub open spec fn head_closable(&self) -> bool {
        header_encodes(closed_head(self.head())) && header_bytes(closed_head(self.head())).len() == self.head_len()
    }

    /// What closing the store comes to: the image of the data file with the
    /// session-dirty bit cleared in its header, and the image of the index
    /// file. `SerializationError` where one of the two cannot be written.
    pub open spec fn closed(&self, r: Result<(Vec<u8>, Vec<u8>), KvsError>) -> bool {
        if self.index_writable() && self.head_closable() {
            &&& r is Ok
            &&& r->Ok_0.0@ == header_bytes(closed_head(self.head())) + self.log().skip(self.head_len())
            &&& r->Ok_0.1@ == self.index_file()
        } else {
            r is Err && r->Err_0@ == KvsErrorView::SerializationError
        }
    }

    /// Closes the store: hands out the image of the data file, its header
    /// marked as closed, and the image of the index file.
    pub fn close(self) -> (r: Result<(Vec<u8>, Vec<u8>), KvsError>)
        requires
            self.wf(),
        ensures
            self.closed(r),
    {
        let index_file = match self.index_bytes() {
            Some(bytes) => bytes,
            None => {
                return Err(KvsError::SerializationError);
            },
        };
        let header = KvHeader {
            build_number: self.header.build_number,
            last_open: self.header.last_open,
            next_compaction_size: self.header.next_compaction_size,
            flags: self.header.flags & !SESSION_DIRTY,
        };
        let mut image = match header.encode() {
            Some(bytes) => bytes,
            None => {
                return Err(KvsError::SerializationError);
            },
        };
        if image.len() != self.header_len {
            return Err(KvsError::SerializationError);
        }
        let total: usize = self.data.len();
        image.extend_from_slice(&self.data[self.header_len..total]);
        assert(image@ =~= header_bytes(header) + self.log().skip(self.head_len()));
        Ok((image, index_file))
    }
}

} // verus!
