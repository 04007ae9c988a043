//! Orchestrator: drives one archiving run. For each file of the traversal it
//! encodes the entry name, opens an entry, streams the file's bytes in chunks
//! through the compression pipeline into the container, and finalizes the
//! entry; after the last entry it closes the container. Every step returns the
//! bytes to append to the output sink, and the first failure of any step
//! poisons the run: no per-entry recovery is offered.
//!
//! The run's outcome is pinned exactly: after a successful `finish`, the bytes
//! handed out over the whole run are `spec_archive` of the (name, content)
//! pairs streamed in — a pure function of the inputs, the method and the
//! level, which is the written form of the run's determinism.

use vstd::prelude::*;
use crate::checksum::crc32_of;
use crate::compress::{transform_of, EntryStream, Method};
use crate::container::{
    method_tag, offsets_ok, record_wf, spec_blocks, spec_central_dir, spec_descriptor,
    spec_entry_block, spec_eocd, spec_local_header, ContainerWriter, EntryRecord,
};
use crate::name::{encode_entry_name, is_utf8, join_name};

verus! {

/// Classification of one traversal entry, as the directory enumerator
/// reports it.
#[derive(Clone, Copy, Debug)]
pub enum EntryKind {
    File,
    Directory,
    Other,
}

/// Why an archiving run was aborted. Filesystem and traversal failures happen
/// outside the core and never reach it; these are the core's own reasons.
#[derive(Debug)]
pub enum ArchiveError {
    /// An entry's name is not representable in the mandated text encoding.
    InvalidName,
    /// The codec reported a failure while compressing entry bytes.
    Compression,
    /// A size, count or offset field of the container format would overflow.
    TooLarge,
}

/// The fixed 32-byte reserved extension field written for every entry:
/// a placeholder, deliberately constant so that identical runs produce
/// identical bytes.
pub open spec fn zero_extra() -> Seq<u8> {
    Seq::new(32, |i: int| 0u8)
}

/// Builds the reserved extension field.
pub fn make_extra() -> (v: Vec<u8>)
    ensures
        v@ == zero_extra(),
{
    let v = vec![0u8; 32];
    proof {
        assert(v@ =~= zero_extra());
    }
    v
}

/// Only regular files become entries; directories and any other kind of
/// traversal entry are skipped without side effects.
pub fn should_archive(kind: EntryKind) -> (b: bool)
    ensures
        b == (kind is File),
{
    match kind {
        EntryKind::File => true,
        _ => false,
    }
}

/// The block written for one file: its local header, its transformed bytes,
/// and its descriptor carrying the checksum and sizes of its content.
pub open spec fn spec_file_block(name: Seq<u8>, content: Seq<u8>, m: Method, lvl: u32) -> Seq<u8> {
    spec_local_header(name, method_tag(m), zero_extra()) + transform_of(m, lvl, content)
        + spec_descriptor(
        crc32_of(content),
        transform_of(m, lvl, content).len() as u32,
        content.len() as u32,
    )
}

/// The entry blocks of a run's files, in order.
pub open spec fn spec_files_blocks(fs: Seq<(Seq<u8>, Seq<u8>)>, m: Method, lvl: u32) -> Seq<u8>
    decreases fs.len(),
{
    if fs.len() == 0 {
        Seq::empty()
    } else {
        spec_files_blocks(fs.drop_last(), m, lvl) + spec_file_block(
            fs.last().0,
            fs.last().1,
            m,
            lvl,
        )
    }
}

/// The central directory record written for one file whose local header
/// begins at `offset`.
pub open spec fn spec_file_central_record(
    name: Seq<u8>,
    content: Seq<u8>,
    m: Method,
    lvl: u32,
    offset: u32,
) -> Seq<u8> {
    crate::bytes::le32(0x02014B50) + crate::bytes::le16(20) + crate::bytes::le16(20)
        + crate::bytes::le16(0x0808) + crate::bytes::le16(method_tag(m)) + crate::bytes::le16(0)
        + crate::bytes::le16(0) + crate::bytes::le32(crc32_of(content)) + crate::bytes::le32(
        transform_of(m, lvl, content).len() as u32,
    ) + crate::bytes::le32(content.len() as u32) + crate::bytes::le16(name.len() as u16)
        + crate::bytes::le16(32) + crate::bytes::le16(0) + crate::bytes::le16(0)
        + crate::bytes::le16(0) + crate::bytes::le32(0) + crate::bytes::le32(offset) + name
        + zero_extra()
}

/// The central directory of a run's files, in order, each record naming the
/// offset where its file's block begins.
pub open spec fn spec_files_central(fs: Seq<(Seq<u8>, Seq<u8>)>, m: Method, lvl: u32) -> Seq<u8>
    decreases fs.len(),
{
    if fs.len() == 0 {
        Seq::empty()
    } else {
        spec_files_central(fs.drop_last(), m, lvl) + spec_file_central_record(
            fs.last().0,
            fs.last().1,
            m,
            lvl,
            spec_files_blocks(fs.drop_last(), m, lvl).len() as u32,
        )
    }
}

/// The whole archive for a run's files: every file's block in order, the
/// central directory, and the end record whose count is the number of files.
pub open spec fn spec_archive(fs: Seq<(Seq<u8>, Seq<u8>)>, m: Method, lvl: u32) -> Seq<u8> {
    spec_files_blocks(fs, m, lvl) + spec_files_central(fs, m, lvl) + spec_eocd(
        fs.len() as u16,
        spec_files_central(fs, m, lvl).len() as u32,
        spec_files_blocks(fs, m, lvl).len() as u32,
    )
}

/// A finalized record carries exactly what the run's `i`-th file put there.
pub open spec fn record_matches_file(
    e: EntryRecord,
    name: Seq<u8>,
    content: Seq<u8>,
    m: Method,
    lvl: u32,
) -> bool {
    &&& e.name@ == name
    &&& e.method == m
    &&& e.extra@ == zero_extra()
    &&& e.crc == crc32_of(content)
    &&& e.uncompressed_size == content.len()
    &&& e.data@ == transform_of(m, lvl, content)
}

/// Appending one matching record keeps every record matched to its file.
proof fn lemma_link_push(
    dir_old: Seq<EntryRecord>,
    dir_new: Seq<EntryRecord>,
    fs_old: Seq<(Seq<u8>, Seq<u8>)>,
    fs_new: Seq<(Seq<u8>, Seq<u8>)>,
    m: Method,
    lvl: u32,
    name: Seq<u8>,
    content: Seq<u8>,
)
    requires
        fs_new == fs_old.push((name, content)),
        dir_new.len() == dir_old.len() + 1,
        forall|i: int| 0 <= i < dir_old.len() ==> #[trigger] dir_new[i] == dir_old[i],
        fs_old.len() == dir_old.len(),
        forall|i: int|
            0 <= i < fs_old.len() ==> record_matches_file(
                #[trigger] dir_old[i],
                fs_old[i].0,
                fs_old[i].1,
                m,
                lvl,
            ),
        record_matches_file(dir_new.last(), name, content, m, lvl),
    ensures
        forall|i: int|
            0 <= i < fs_new.len() ==> record_matches_file(
                #[trigger] dir_new[i],
                fs_new[i].0,
                fs_new[i].1,
                m,
                lvl,
            ),
{
    assert forall|i: int| 0 <= i < fs_new.len() implies record_matches_file(
        #[trigger] dir_new[i],
        fs_new[i].0,
        fs_new[i].1,
        m,
        lvl,
    ) by {
        if i < fs_old.len() {
            assert(record_matches_file(dir_old[i], fs_old[i].0, fs_old[i].1, m, lvl));
        } else {
            assert(dir_new[i] == dir_new.last());
            assert(fs_new[i] == (name, content));
        }
    }
}

/// One archiving run. `files` is the ghost record of the (name, content)
/// pairs streamed so far; the invariant ties every finalized container record
/// to its file, so the output bytes are a function of those pairs alone.
pub struct Archiver {
    pub writer: ContainerWriter,
    pub stream: Option<EntryStream>,
    pub method: Method,
    pub level: u32,
    pub files: Ghost<Seq<(Seq<u8>, Seq<u8>)>>,
}

impl Archiver {
    /// The run's invariant.
    pub open spec fn wf(self) -> bool {
        &&& self.writer.wf()
        &&& self.level <= 9
        &&& self.files@.len() == self.writer.dir@.len()
        &&& (forall|i: int|
            0 <= i < self.files@.len() ==> record_matches_file(
                #[trigger] self.writer.dir@[i],
                self.files@[i].0,
                self.files@[i].1,
                self.method,
                self.level,
            ))
        &&& match self.stream {
            Some(s) => {
                &&& self.writer.is_writing()
                &&& s.wf()
                &&& s.method() == self.method
                &&& s.level() == self.level
                &&& s.fed().len() <= 0xFFFF_FFFF
                &&& self.writer.pending->0.data@ == s.taken()
                &&& self.writer.pending->0.method == self.method
                &&& self.writer.pending->0.extra@ == zero_extra()
            },
            None => self.writer.pending is None,
        }
    }

    /// A fresh run that has emitted nothing.
    pub fn new(method: Method, level: u32) -> (a: Self)
        requires
            level <= 9,
        ensures
            a.wf(),
            a.method == method,
            a.level == level,
            a.stream is None,
            !a.writer.closed,
            a.files@ == Seq::<(Seq<u8>, Seq<u8>)>::empty(),
            a.writer.emitted@ == Seq::<u8>::empty(),
    {
        Archiver {
            writer: ContainerWriter::new(),
            stream: None,
            method,
            level,
            files: Ghost(Seq::empty()),
        }
    }

    /// Opens one file's entry. The path is given as its components relative
    /// to the traversal root; the entry's name is their join, and the run is
    /// aborted — with `InvalidName`, and nothing written — exactly when that
    /// name is not valid text in the mandated encoding. A name or offset that
    /// would overflow the container's fields aborts with `TooLarge`.
    pub fn start_file(&mut self, components: &Vec<Vec<u8>>) -> (r: Result<Vec<u8>, ArchiveError>)
        requires
            old(self).wf(),
            old(self).stream is None,
            !old(self).writer.closed,
        ensures
            r is Err ==> *final(self) == *old(self),
            (r is Err && r->Err_0 is InvalidName) <==> !is_utf8(join_name(components.deep_view())),
            r is Ok <==> (is_utf8(join_name(components.deep_view()))
                && join_name(components.deep_view()).len() <= 0xFFFF && old(self).writer.offset + 62
                + join_name(components.deep_view()).len() <= 0xFFFF_FFFF
                && old(self).writer.dir@.len() < 0xFFFF),
            r is Ok ==> {
                &&& final(self).wf()
                &&& final(self).stream is Some
                &&& final(self).stream->0.fed() == Seq::<u8>::empty()
                &&& final(self).method == old(self).method
                &&& final(self).level == old(self).level
                &&& final(self).files@ == old(self).files@
                &&& final(self).writer.dir@ == old(self).writer.dir@
                &&& !final(self).writer.closed
                &&& final(self).writer.pending->0.name@ == join_name(components.deep_view())
                &&& r->Ok_0@ == spec_local_header(
                    join_name(components.deep_view()),
                    method_tag(old(self).method),
                    zero_extra(),
                )
                &&& final(self).writer.emitted@ == old(self).writer.emitted@ + r->Ok_0@
            },
    {
        let name = match encode_entry_name(components) {
            Ok(n) => n,
            Err(_) => {
                return Err(ArchiveError::InvalidName);
            },
        };
        if name.len() > 0xFFFF {
            return Err(ArchiveError::TooLarge);
        }
        if self.writer.offset + 62 + name.len() as u64 > 0xFFFF_FFFF {
            return Err(ArchiveError::TooLarge);
        }
        if self.writer.dir.len() >= 0xFFFF {
            return Err(ArchiveError::TooLarge);
        }
        let extra = make_extra();
        let header = self.writer.begin_entry(name, self.method, extra);
        self.stream = Some(EntryStream::begin(self.method, self.level));
        Ok(header)
    }

    /// Streams one chunk of the open file's bytes: checksums and counts them,
    /// transforms them, writes what the transform produced, and hands those
    /// bytes back for the sink. With the Stored method no codec is involved,
    /// and success is owed whenever the format's size fields are not
    /// exceeded; a compressing run may also abort on a codec failure, after
    /// which the run is poisoned.
    pub fn file_chunk(&mut self, data: &[u8]) -> (r: Result<Vec<u8>, ArchiveError>)
        requires
            old(self).wf(),
            old(self).stream is Some,
        ensures
            r is Ok ==> {
                &&& final(self).wf()
                &&& final(self).stream is Some
                &&& final(self).method == old(self).method
                &&& final(self).level == old(self).level
                &&& final(self).files@ == old(self).files@
                &&& final(self).writer.dir@ == old(self).writer.dir@
                &&& !final(self).writer.closed
                &&& final(self).writer.pending->0.name@ == old(self).writer.pending->0.name@
                &&& final(self).stream->0.fed() == old(self).stream->0.fed() + data@
                &&& final(self).writer.emitted@ == old(self).writer.emitted@ + r->Ok_0@
            },
            old(self).stream->0.fed().len() + data@.len() > 0xFFFF_FFFF ==> (r is Err
                && r->Err_0 is TooLarge),
            (r is Err && r->Err_0 is Compression) ==> old(self).method is Deflate,
            old(self).method is Stored ==> (r is Ok <==> (old(self).stream->0.fed().len()
                + data@.len() <= 0xFFFF_FFFF && old(self).writer.offset + data@.len()
                <= 0xFFFF_FFFF)),
    {
        let mut s = self.stream.take().unwrap();
        if data.len() as u64 > 0xFFFF_FFFF - s.fed_so_far() {
            self.stream = Some(s);
            return Err(ArchiveError::TooLarge);
        }
        match s.feed(data) {
            Err(_) => Err(ArchiveError::Compression),
            Ok(out) => {
                if out.len() as u64 > 0xFFFF_FFFF - self.writer.offset {
                    return Err(ArchiveError::TooLarge);
                }
                let written = self.writer.write_chunk(out);
                self.stream = Some(s);
                Ok(written)
            },
        }
    }

    /// Closes the open file's entry: drains the transform's remaining output,
    /// writes it with the entry's data descriptor, and appends the finalized
    /// record — carrying the checksum, sizes and name of exactly what was
    /// streamed — to the in-memory central directory.
    #[verifier::rlimit(100)]
    pub fn file_end(&mut self) -> (r: Result<Vec<u8>, ArchiveError>)
        requires
            old(self).wf(),
            old(self).stream is Some,
        ensures
            r is Ok ==> {
                &&& final(self).wf()
                &&& final(self).stream is None
                &&& final(self).method == old(self).method
                &&& final(self).level == old(self).level
                &&& !final(self).writer.closed
                &&& final(self).files@ == old(self).files@.push(
                    (old(self).writer.pending->0.name@, old(self).stream->0.fed()),
                )
                &&& final(self).writer.emitted@ == old(self).writer.emitted@ + r->Ok_0@
            },
            (r is Err && r->Err_0 is Compression) ==> old(self).method is Deflate,
            old(self).method is Stored ==> (r is Ok <==> old(self).writer.offset + 16
                <= 0xFFFF_FFFF),
    {
        let s = self.stream.take().unwrap();
        let ghost fed = s.fed();
        let ghost name_spec = self.writer.pending->0.name@;
        match s.finish() {
            Err(_) => Err(ArchiveError::Compression),
            Ok((tail, crc, size)) => {
                if tail.len() as u64 > 0xFFFF_FFFF || self.writer.offset + tail.len() as u64 + 16
                    > 0xFFFF_FFFF {
                    return Err(ArchiveError::TooLarge);
                }
                let out = self.writer.finish_entry_with_tail(tail, crc, size);
                proof {
                    self.files@ = self.files@.push((name_spec, fed));
                    assert(self.writer.dir@.last().data@ =~= transform_of(
                        self.method,
                        self.level,
                        fed,
                    ));
                    assert(record_matches_file(
                        self.writer.dir@.last(),
                        name_spec,
                        fed,
                        self.method,
                        self.level,
                    ));
                    lemma_link_push(
                        old(self).writer.dir@,
                        self.writer.dir@,
                        old(self).files@,
                        self.files@,
                        self.method,
                        self.level,
                        name_spec,
                        fed,
                    );
                }
                Ok(out)
            },
        }
    }

    /// Ends the run: emits the central directory and the end record, whose
    /// entry count equals the number of files streamed. Success is owed
    /// whenever the directory's byte size fits its 32-bit field; afterwards
    /// the whole output equals `spec_archive` of the files streamed.
    pub fn finish(&mut self) -> (r: Result<Vec<u8>, ArchiveError>)
        requires
            old(self).wf(),
            old(self).stream is None,
            !old(self).writer.closed,
        ensures
            r is Ok <==> old(self).writer.cd_size <= 0xFFFF_FFFF,
            r is Err ==> *final(self) == *old(self),
            r is Ok ==> {
                &&& final(self).wf()
                &&& final(self).writer.closed
                &&& final(self).files@ == old(self).files@
                &&& final(self).writer.dir@ == old(self).writer.dir@
                &&& final(self).files@.len() == final(self).writer.dir@.len()
                &&& final(self).writer.emitted@ == old(self).writer.emitted@ + r->Ok_0@
                &&& final(self).writer.emitted@ == spec_archive(
                    final(self).files@,
                    final(self).method,
                    final(self).level,
                )
            },
    {
        if self.writer.cd_size > 0xFFFF_FFFF {
            return Err(ArchiveError::TooLarge);
        }
        let out = self.writer.close();
        proof {
            lemma_linked_bytes(
                self.writer.dir@,
                self.files@,
                self.method,
                self.level,
            );
            assert(self.writer.emitted@ =~= spec_archive(
                self.files@,
                self.method,
                self.level,
            ));
        }
        Ok(out)
    }
}

/// A directory whose every record matches its file, with offsets in block
/// order, encodes byte for byte as the files themselves do: the container's
/// blocks and central directory are functions of the (name, content) pairs,
/// the method and the level alone.
pub proof fn lemma_linked_bytes(
    dir: Seq<EntryRecord>,
    fs: Seq<(Seq<u8>, Seq<u8>)>,
    m: Method,
    lvl: u32,
)
    requires
        dir.len() == fs.len(),
        offsets_ok(dir),
        forall|i: int| 0 <= i < dir.len() ==> record_wf(#[trigger] dir[i]),
        forall|i: int|
            0 <= i < fs.len() ==> record_matches_file(#[trigger] dir[i], fs[i].0, fs[i].1, m, lvl),
    ensures
        spec_blocks(dir) == spec_files_blocks(fs, m, lvl),
        spec_central_dir(dir) == spec_files_central(fs, m, lvl),
    decreases dir.len(),
{
    if dir.len() > 0 {
        let dir0 = dir.drop_last();
        let fs0 = fs.drop_last();
        assert forall|i: int| 0 <= i < dir0.len() implies (#[trigger] dir0[i]).local_header_offset
            == spec_blocks(dir0.take(i)).len() by {
            assert(dir0.take(i) =~= dir.take(i));
            assert(dir0[i] == dir[i]);
        }
        lemma_linked_bytes(dir0, fs0, m, lvl);
        let e = dir.last();
        let name = fs.last().0;
        let content = fs.last().1;
        assert(record_matches_file(e, name, content, m, lvl));
        assert(e.compressed_size == transform_of(m, lvl, content).len());
        assert(spec_entry_block(e) =~= spec_file_block(name, content, m, lvl));
        assert(dir0.take(dir0.len() as int) =~= dir0);
        assert(e.local_header_offset == spec_blocks(dir0).len());
        reveal(crate::container::spec_central_record);
        assert(crate::container::spec_central_record(e) =~= spec_file_central_record(
            name,
            content,
            m,
            lvl,
            spec_files_blocks(fs0, m, lvl).len() as u32,
        ));
    }
}

} // verus!
