//! Archive container writer: a stateful encoder that accepts a sequence of
//! (name, method, byte stream) entries and emits a valid ZIP container byte
//! stream, one chunk at a time, never holding a whole entry in memory.
//!
//! The writer owns no sink: every method returns the bytes to append to the
//! output, and a ghost field `emitted` records everything handed out, so the
//! contracts pin the output stream exactly. Sizes and checksums are deferred
//! to a trailing data descriptor (general purpose flag bit 3), so a local
//! header can be written before its entry's bytes are known; names are
//! declared UTF-8 (flag bit 11). The central directory and the end record are
//! emitted once, by `close`, and their offsets, sizes and count are proved to
//! match the bytes written before them.

use vstd::prelude::*;
use crate::bytes::{le16, le32, push_le16, push_le32};
use crate::compress::Method;

verus! {

/// The container's tag for a compression method.
pub open spec fn method_tag(m: Method) -> u16 {
    match m {
        Method::Stored => 0,
        Method::Deflate => 8,
    }
}

/// Executable form of `method_tag`.
pub fn tag_of(m: Method) -> (t: u16)
    ensures
        t == method_tag(m),
{
    match m {
        Method::Stored => 0,
        Method::Deflate => 8,
    }
}

/// A local file header: signature, version 2.0, flags (descriptor deferred,
/// UTF-8 name), method, fixed zero timestamp, zero crc and sizes (deferred),
/// name and extra field lengths, then the name and extra bytes themselves.
#[verifier::opaque]
pub open spec fn spec_local_header(name: Seq<u8>, method: u16, extra: Seq<u8>) -> Seq<u8> {
    le32(0x04034B50) + le16(20) + le16(0x0808) + le16(method) + le16(0) + le16(0) + le32(0) + le32(
        0,
    ) + le32(0) + le16(name.len() as u16) + le16(extra.len() as u16) + name + extra
}

/// A trailing data descriptor: signature, then the entry's crc and sizes.
#[verifier::opaque]
pub open spec fn spec_descriptor(crc: u32, comp_size: u32, uncomp_size: u32) -> Seq<u8> {
    le32(0x08074B50) + le32(crc) + le32(comp_size) + le32(uncomp_size)
}

/// One finalized entry of the central directory. `data` is the ghost record
/// of the transformed bytes that were written for the entry.
pub struct EntryRecord {
    pub name: Vec<u8>,
    pub method: Method,
    pub extra: Vec<u8>,
    pub crc: u32,
    pub compressed_size: u32,
    pub uncompressed_size: u32,
    pub local_header_offset: u32,
    pub data: Ghost<Seq<u8>>,
}

/// Field-width bounds of a finalized record, and agreement between the
/// recorded compressed size and the bytes written.
pub open spec fn record_wf(e: EntryRecord) -> bool {
    &&& e.name@.len() <= 0xFFFF
    &&& e.extra@.len() <= 0xFFFF
    &&& e.data@.len() == e.compressed_size
}

/// A central directory record: signature, versions, the same flags and method
/// as the local header, zero timestamp, crc and sizes, field lengths, zero
/// comment/disk/attribute fields, the entry's local header offset, then the
/// name and extra bytes.
#[verifier::opaque]
pub open spec fn spec_central_record(e: EntryRecord) -> Seq<u8> {
    le32(0x02014B50) + le16(20) + le16(20) + le16(0x0808) + le16(method_tag(e.method)) + le16(0)
        + le16(0) + le32(e.crc) + le32(e.compressed_size) + le32(e.uncompressed_size) + le16(
        e.name@.len() as u16,
    ) + le16(e.extra@.len() as u16) + le16(0) + le16(0) + le16(0) + le32(0) + le32(
        e.local_header_offset,
    ) + e.name@ + e.extra@
}

/// The whole central directory: one record per entry, in finish order.
pub open spec fn spec_central_dir(es: Seq<EntryRecord>) -> Seq<u8>
    decreases es.len(),
{
    if es.len() == 0 {
        Seq::empty()
    } else {
        spec_central_dir(es.drop_last()) + spec_central_record(es.last())
    }
}

/// The end-of-central-directory record: signature, single-disk fields, the
/// entry count (twice: this disk and total), the directory's size and start
/// offset, and an empty comment.
#[verifier::opaque]
pub open spec fn spec_eocd(count: u16, cd_size: u32, cd_offset: u32) -> Seq<u8> {
    le32(0x06054B50) + le16(0) + le16(0) + le16(count) + le16(count) + le32(cd_size) + le32(
        cd_offset,
    ) + le16(0)
}

/// Everything written for one entry: local header, data, descriptor.
pub open spec fn spec_entry_block(e: EntryRecord) -> Seq<u8> {
    spec_local_header(e.name@, method_tag(e.method), e.extra@) + e.data@ + spec_descriptor(
        e.crc,
        e.compressed_size,
        e.uncompressed_size,
    )
}

/// The entry blocks of a directory, in order.
pub open spec fn spec_blocks(es: Seq<EntryRecord>) -> Seq<u8>
    decreases es.len(),
{
    if es.len() == 0 {
        Seq::empty()
    } else {
        spec_blocks(es.drop_last()) + spec_entry_block(es.last())
    }
}

/// Every record's offset points at the start of its own block: entry `i`
/// begins exactly where the blocks of entries `0 .. i` end.
pub open spec fn offsets_ok(es: Seq<EntryRecord>) -> bool {
    forall|i: int|
        0 <= i < es.len() ==> (#[trigger] es[i]).local_header_offset == spec_blocks(
            es.take(i),
        ).len()
}

proof fn lemma_close_assembly(em0: Seq<u8>, dir: Seq<EntryRecord>, cd: Seq<u8>, tail: Seq<u8>)
    requires
        em0 == spec_blocks(dir),
        cd == spec_central_dir(dir),
    ensures
        em0 + (cd + tail) == spec_blocks(dir) + spec_central_dir(dir) + tail,
{
    assert(em0 + (cd + tail) =~= spec_blocks(dir) + spec_central_dir(dir) + tail);
}

proof fn lemma_blocks_push(es: Seq<EntryRecord>, e: EntryRecord)
    ensures
        spec_blocks(es.push(e)) == spec_blocks(es) + spec_entry_block(e),
        spec_central_dir(es.push(e)) == spec_central_dir(es) + spec_central_record(e),
{
    assert(es.push(e).drop_last() =~= es);
    assert(es.push(e).last() == e);
}

/// Appends one central directory record.
#[verifier::rlimit(100)]
pub fn push_central_record(out: &mut Vec<u8>, e: &EntryRecord)
    requires
        record_wf(*e),
    ensures
        final(out)@ == old(out)@ + spec_central_record(*e),
{
    let ghost out0 = out@;
    push_le32(out, 0x02014B50);
    push_le16(out, 20);
    push_le16(out, 20);
    push_le16(out, 0x0808);
    push_le16(out, tag_of(e.method));
    push_le16(out, 0);
    push_le16(out, 0);
    push_le32(out, e.crc);
    push_le32(out, e.compressed_size);
    push_le32(out, e.uncompressed_size);
    push_le16(out, e.name.len() as u16);
    push_le16(out, e.extra.len() as u16);
    push_le16(out, 0);
    push_le16(out, 0);
    push_le16(out, 0);
    push_le32(out, 0);
    push_le32(out, e.local_header_offset);
    out.extend_from_slice(e.name.as_slice());
    out.extend_from_slice(e.extra.as_slice());
    proof {
        reveal(spec_central_record);
        assert(out@ =~= out0 + spec_central_record(*e));
    }
}

/// Appends the end-of-central-directory record.
pub fn push_eocd(out: &mut Vec<u8>, count: u16, cd_size: u32, cd_offset: u32)
    ensures
        final(out)@ == old(out)@ + spec_eocd(count, cd_size, cd_offset),
{
    let ghost out0 = out@;
    push_le32(out, 0x06054B50);
    push_le16(out, 0);
    push_le16(out, 0);
    push_le16(out, count);
    push_le16(out, count);
    push_le32(out, cd_size);
    push_le32(out, cd_offset);
    push_le16(out, 0);
    proof {
        reveal(spec_eocd);
        assert(out@ =~= out0 + spec_eocd(count, cd_size, cd_offset));
    }
}

/// Builds the whole central directory: one record per entry, in order.
pub fn central_dir_bytes(dir: &Vec<EntryRecord>) -> (out: Vec<u8>)
    requires
        forall|k: int| 0 <= k < dir@.len() ==> record_wf(#[trigger] dir@[k]),
    ensures
        out@ == spec_central_dir(dir@),
{
    let mut out: Vec<u8> = Vec::new();
    let mut i: usize = 0;
    let n = dir.len();
    while i < n
        invariant
            0 <= i <= n,
            n == dir@.len(),
            forall|k: int| 0 <= k < dir@.len() ==> record_wf(#[trigger] dir@[k]),
            out@ == spec_central_dir(dir@.take(i as int)),
        decreases n - i,
    {
        proof {
            assert(dir@.take(i as int + 1).drop_last() =~= dir@.take(i as int));
            assert(dir@.take(i as int + 1).last() == dir@[i as int]);
        }
        push_central_record(&mut out, &dir[i]);
        i += 1;
    }
    proof {
        assert(dir@.take(n as int) =~= dir@);
    }
    out
}

/// The state of one entry mid-stream: its header has been written at
/// `header_offset`, and `data` (of length `compressed_size`) has followed it.
pub struct PendingEntry {
    pub name: Vec<u8>,
    pub method: Method,
    pub extra: Vec<u8>,
    pub header_offset: u64,
    pub compressed_size: u64,
    pub data: Ghost<Seq<u8>>,
}

/// The archive container writer. States: open (between entries), writing
/// (one entry's stream in progress), closed (trailer written). `emitted` is
/// the ghost record of every byte handed to the caller, in order; `offset` is
/// its length, and `cd_size` the byte size of the central directory built so
/// far — both kept as machine words so a caller can test the container
/// format's 32-bit limits before committing to a write.
pub struct ContainerWriter {
    pub offset: u64,
    pub cd_size: u64,
    pub dir: Vec<EntryRecord>,
    pub pending: Option<PendingEntry>,
    pub closed: bool,
    pub emitted: Ghost<Seq<u8>>,
}

impl ContainerWriter {
    /// Between entries, trailer not yet written.
    pub open spec fn is_open(self) -> bool {
        !self.closed && self.pending is None
    }

    /// One entry's stream in progress.
    pub open spec fn is_writing(self) -> bool {
        !self.closed && self.pending is Some
    }

    /// The writer's invariant: counters match the ghost output, every
    /// finalized record sits in bounds with its offset at the start of its
    /// own block, and the bytes emitted so far are exactly the blocks of the
    /// finalized entries — followed, while an entry is open, by that entry's
    /// header and data, or, after closing, by the central directory and the
    /// end record.
    pub open spec fn wf(self) -> bool {
        &&& self.dir@.len() <= 0xFFFF
        &&& self.cd_size == spec_central_dir(self.dir@).len()
        &&& self.cd_size <= self.dir@.len() * 131116
        &&& offsets_ok(self.dir@)
        &&& (forall|i: int| 0 <= i < self.dir@.len() ==> record_wf(#[trigger] self.dir@[i]))
        &&& if self.closed {
            self.pending is None
        } else if self.pending is Some {
            let p = self.pending->0;
            &&& self.offset == self.emitted@.len()
            &&& self.offset <= 0xFFFF_FFFF
            &&& self.dir@.len() < 0xFFFF
            &&& p.name@.len() <= 0xFFFF
            &&& p.extra@.len() <= 0xFFFF
            &&& p.compressed_size == p.data@.len()
            &&& p.header_offset == spec_blocks(self.dir@).len()
            &&& self.emitted@ == spec_blocks(self.dir@) + spec_local_header(
                p.name@,
                method_tag(p.method),
                p.extra@,
            ) + p.data@
        } else {
            &&& self.offset == self.emitted@.len()
            &&& self.offset <= 0xFFFF_FFFF
            &&& self.emitted@ == spec_blocks(self.dir@)
        }
    }

    /// A fresh writer that has emitted nothing.
    pub fn new() -> (w: Self)
        ensures
            w.wf(),
            w.is_open(),
            w.dir@ == Seq::<EntryRecord>::empty(),
            w.emitted@ == Seq::<u8>::empty(),
            w.offset == 0,
    {
        let w = ContainerWriter {
            offset: 0,
            cd_size: 0,
            dir: Vec::new(),
            pending: None,
            closed: false,
            emitted: Ghost(Seq::empty()),
        };
        proof {
            assert(w.dir@ =~= Seq::<EntryRecord>::empty());
        }
        w
    }

    /// Opens an entry: returns its local header bytes, records the current
    /// offset as the entry's local header offset, and moves to the writing
    /// state. The bounds in `requires` are the container format's own field
    /// widths; a caller can test them against the public counters.
    pub fn begin_entry(&mut self, name: Vec<u8>, method: Method, extra: Vec<u8>) -> (out: Vec<u8>)
        requires
            old(self).wf(),
            old(self).is_open(),
            name@.len() <= 0xFFFF,
            extra@.len() <= 0xFFFF,
            old(self).offset + 30 + name@.len() + extra@.len() <= 0xFFFF_FFFF,
            old(self).dir@.len() < 0xFFFF,
        ensures
            final(self).wf(),
            final(self).is_writing(),
            final(self).dir@ == old(self).dir@,
            out@ == spec_local_header(name@, method_tag(method), extra@),
            final(self).emitted@ == old(self).emitted@ + out@,
            final(self).offset == old(self).offset + out@.len(),
            final(self).pending->0.name@ == name@,
            final(self).pending->0.method == method,
            final(self).pending->0.extra@ == extra@,
            final(self).pending->0.header_offset == old(self).offset,
            final(self).pending->0.data@ == Seq::<u8>::empty(),
    {
        let mut out: Vec<u8> = Vec::new();
        push_le32(&mut out, 0x04034B50);
        push_le16(&mut out, 20);
        push_le16(&mut out, 0x0808);
        push_le16(&mut out, tag_of(method));
        push_le16(&mut out, 0);
        push_le16(&mut out, 0);
        push_le32(&mut out, 0);
        push_le32(&mut out, 0);
        push_le32(&mut out, 0);
        push_le16(&mut out, name.len() as u16);
        push_le16(&mut out, extra.len() as u16);
        out.extend_from_slice(name.as_slice());
        out.extend_from_slice(extra.as_slice());
        proof {
            reveal(spec_local_header);
            assert(out@ =~= spec_local_header(name@, method_tag(method), extra@));
        }
        self.pending = Some(
            PendingEntry {
                name,
                method,
                extra,
                header_offset: self.offset,
                compressed_size: 0,
                data: Ghost(Seq::empty()),
            },
        );
        self.offset = self.offset + out.len() as u64;
        proof {
            self.emitted@ = self.emitted@ + out@;
        }
        out
    }

    /// Appends one chunk of the open entry's (already transformed) bytes:
    /// hands the same bytes back for the sink and accounts for them.
    pub fn write_chunk(&mut self, data: Vec<u8>) -> (out: Vec<u8>)
        requires
            old(self).wf(),
            old(self).is_writing(),
            old(self).offset + data@.len() <= 0xFFFF_FFFF,
        ensures
            final(self).wf(),
            final(self).is_writing(),
            final(self).dir@ == old(self).dir@,
            out@ == data@,
            final(self).emitted@ == old(self).emitted@ + data@,
            final(self).offset == old(self).offset + data@.len(),
            final(self).pending->0.name@ == old(self).pending->0.name@,
            final(self).pending->0.method == old(self).pending->0.method,
            final(self).pending->0.extra@ == old(self).pending->0.extra@,
            final(self).pending->0.header_offset == old(self).pending->0.header_offset,
            final(self).pending->0.data@ == old(self).pending->0.data@ + data@,
    {
        let mut p = self.pending.take().unwrap();
        p.compressed_size = p.compressed_size + data.len() as u64;
        proof {
            p.data@ = p.data@ + data@;
        }
        self.pending = Some(p);
        self.offset = self.offset + data.len() as u64;
        proof {
            self.emitted@ = self.emitted@ + data@;
            let q = self.pending->0;
            assert(self.emitted@ =~= spec_blocks(self.dir@) + spec_local_header(
                q.name@,
                method_tag(q.method),
                q.extra@,
            ) + q.data@);
        }
        data
    }

    /// Finalizes the open entry with the checksum and uncompressed length of
    /// its source bytes: returns the data descriptor bytes, appends the
    /// completed record to the in-memory central directory, and reopens the
    /// writer for the next entry.
    #[verifier::rlimit(100)]
    pub fn finish_entry(&mut self, crc: u32, uncompressed_size: u64) -> (out: Vec<u8>)
        requires
            old(self).wf(),
            old(self).is_writing(),
            uncompressed_size <= 0xFFFF_FFFF,
            old(self).offset + 16 <= 0xFFFF_FFFF,
        ensures
            final(self).wf(),
            final(self).is_open(),
            out@ == spec_descriptor(
                crc,
                old(self).pending->0.compressed_size as u32,
                uncompressed_size as u32,
            ),
            final(self).emitted@ == old(self).emitted@ + out@,
            final(self).offset == old(self).offset + 16,
            final(self).dir@.len() == old(self).dir@.len() + 1,
            forall|i: int|
                0 <= i < old(self).dir@.len() ==> #[trigger] final(self).dir@[i] == old(
                    self,
                ).dir@[i],
            final(self).dir@.last().name@ == old(self).pending->0.name@,
            final(self).dir@.last().method == old(self).pending->0.method,
            final(self).dir@.last().extra@ == old(self).pending->0.extra@,
            final(self).dir@.last().crc == crc,
            final(self).dir@.last().compressed_size == old(self).pending->0.compressed_size as u32,
            final(self).dir@.last().uncompressed_size == uncompressed_size as u32,
            final(self).dir@.last().local_header_offset == old(self).pending->0.header_offset as u32,
            final(self).dir@.last().data@ == old(self).pending->0.data@,
    {
        let p = self.pending.take().unwrap();
        let ghost old_dir = self.dir@;
        let ghost old_emitted = self.emitted@;
        let mut out: Vec<u8> = Vec::new();
        push_le32(&mut out, 0x08074B50);
        push_le32(&mut out, crc);
        push_le32(&mut out, p.compressed_size as u32);
        push_le32(&mut out, uncompressed_size as u32);
        proof {
            reveal(spec_descriptor);
            assert(out@ =~= spec_descriptor(
                crc,
                p.compressed_size as u32,
                uncompressed_size as u32,
            ));
        }
        let name_len = p.name.len();
        let extra_len = p.extra.len();
        let record = EntryRecord {
            name: p.name,
            method: p.method,
            extra: p.extra,
            crc,
            compressed_size: p.compressed_size as u32,
            uncompressed_size: uncompressed_size as u32,
            local_header_offset: p.header_offset as u32,
            data: Ghost(p.data@),
        };
        proof {
            lemma_blocks_push(old_dir, record);
            reveal(spec_central_record);
            assert(record.compressed_size == record.data@.len());
            assert(spec_central_record(record).len() == 46 + name_len + extra_len);
            assert(spec_entry_block(record) == spec_local_header(
                record.name@,
                method_tag(record.method),
                record.extra@,
            ) + record.data@ + out@);
        }
        self.dir.push(record);
        self.cd_size = self.cd_size + (46 + name_len as u64 + extra_len as u64);
        self.offset = self.offset + 16;
        proof {
            self.emitted@ = self.emitted@ + out@;
            assert(self.dir@.drop_last() =~= old_dir);
            assert(self.dir@.last() == record);
            assert(self.emitted@ =~= spec_blocks(self.dir@));
            assert forall|i: int|
                0 <= i < self.dir@.len() implies (#[trigger] self.dir@[i]).local_header_offset
                == spec_blocks(self.dir@.take(i)).len() by {
                if i < old_dir.len() {
                    assert(self.dir@.take(i) =~= old_dir.take(i));
                    assert(self.dir@[i] == old_dir[i]);
                } else {
                    assert(self.dir@.take(i) =~= old_dir);
                }
            }
        }
        out
    }

    /// Finalizes the open entry in one step: writes the transform's last
    /// bytes, then the data descriptor, and appends the completed record to
    /// the in-memory central directory.
    #[verifier::rlimit(100)]
    pub fn finish_entry_with_tail(&mut self, tail: Vec<u8>, crc: u32, uncompressed_size: u64) -> (out: Vec<u8>)
        requires
            old(self).wf(),
            old(self).is_writing(),
            uncompressed_size <= 0xFFFF_FFFF,
            old(self).offset + tail@.len() + 16 <= 0xFFFF_FFFF,
        ensures
            final(self).wf(),
            final(self).is_open(),
            final(self).emitted@ == old(self).emitted@ + out@,
            out@ == tail@ + spec_descriptor(
                crc,
                (old(self).pending->0.compressed_size + tail@.len()) as u32,
                uncompressed_size as u32,
            ),
            final(self).dir@.len() == old(self).dir@.len() + 1,
            forall|i: int|
                0 <= i < old(self).dir@.len() ==> #[trigger] final(self).dir@[i] == old(
                    self,
                ).dir@[i],
            final(self).dir@.last().name@ == old(self).pending->0.name@,
            final(self).dir@.last().method == old(self).pending->0.method,
            final(self).dir@.last().extra@ == old(self).pending->0.extra@,
            final(self).dir@.last().crc == crc,
            final(self).dir@.last().compressed_size == (old(self).pending->0.compressed_size
                + tail@.len()) as u32,
            final(self).dir@.last().uncompressed_size == uncompressed_size as u32,
            final(self).dir@.last().local_header_offset == old(
                self,
            ).pending->0.header_offset as u32,
            final(self).dir@.last().data@ == old(self).pending->0.data@ + tail@,
    {
        let mut out = self.write_chunk(tail);
        let mut desc = self.finish_entry(crc, uncompressed_size);
        out.append(&mut desc);
        proof {
            assert(self.emitted@ =~= old(self).emitted@ + out@);
        }
        out
    }

    /// Closes the container: emits the whole central directory, one record
    /// per finished entry in finish order, followed by the end record naming
    /// the entry count, the directory's byte size, and its start offset. The
    /// one bound required is the format's 32-bit directory size field; the
    /// caller can test `cd_size` against it.
    #[verifier::rlimit(100)]
    pub fn close(&mut self) -> (out: Vec<u8>)
        requires
            old(self).wf(),
            old(self).is_open(),
            old(self).cd_size <= 0xFFFF_FFFF,
        ensures
            final(self).wf(),
            final(self).closed,
            final(self).dir@ == old(self).dir@,
            final(self).emitted@ == old(self).emitted@ + out@,
            out@ == spec_central_dir(old(self).dir@) + spec_eocd(
                old(self).dir@.len() as u16,
                old(self).cd_size as u32,
                old(self).offset as u32,
            ),
            final(self).emitted@ == spec_blocks(old(self).dir@) + spec_central_dir(old(self).dir@)
                + spec_eocd(
                old(self).dir@.len() as u16,
                old(self).cd_size as u32,
                old(self).offset as u32,
            ),
    {
        let ghost dir0 = self.dir@;
        let mut out = central_dir_bytes(&self.dir);
        let cd_offset = self.offset as u32;
        let count = self.dir.len() as u16;
        let cd_size32 = self.cd_size as u32;
        let ghost cd = out@;
        push_eocd(&mut out, count, cd_size32, cd_offset);
        self.closed = true;
        proof {
            lemma_close_assembly(
                self.emitted@,
                dir0,
                cd,
                spec_eocd(count, cd_size32, cd_offset),
            );
            self.emitted@ = self.emitted@ + out@;
            assert(cd_size32 == spec_central_dir(dir0).len() as u32);
            assert(cd_offset == spec_blocks(dir0).len() as u32);
        }
        out
    }
}

} // verus!
