//! The library's general laws, each proved over the same spec functions that
//! the executable functions' contracts use.

use vstd::prelude::*;
use crate::archive::{spec_archive, spec_file_block, spec_files_blocks, spec_files_central, Archiver};
use crate::bytes::le16;
use crate::compress::Method;
use crate::container::{
    method_tag, offsets_ok, spec_blocks, spec_entry_block, spec_eocd, spec_local_header,
    EntryRecord,
};

verus! {

proof fn lemma_blocks_take_succ(es: Seq<EntryRecord>, i: int)
    requires
        0 <= i < es.len(),
    ensures
        spec_blocks(es.take(i + 1)) == spec_blocks(es.take(i)) + spec_entry_block(es[i]),
{
    assert(es.take(i + 1).drop_last() =~= es.take(i));
    assert(es.take(i + 1).last() == es[i]);
}

proof fn lemma_blocks_take_prefix(es: Seq<EntryRecord>, j: int)
    requires
        0 <= j <= es.len(),
    ensures
        spec_blocks(es.take(j)).is_prefix_of(spec_blocks(es)),
    decreases es.len() - j,
{
    if j == es.len() {
        assert(es.take(j) =~= es);
    } else {
        lemma_blocks_take_succ(es, j);
        lemma_blocks_take_prefix(es, j + 1);
        assert(spec_blocks(es.take(j)).is_prefix_of(spec_blocks(es.take(j + 1))));
    }
}

/// Offset integrity: in any output that begins with the entry blocks of a
/// directory whose offsets are consistent — which the container writer's
/// invariant guarantees of every directory it builds — each recorded
/// `local_header_offset` is the byte position where that entry's local header
/// actually stands.
pub proof fn lemma_offset_integrity(es: Seq<EntryRecord>, em: Seq<u8>)
    requires
        offsets_ok(es),
        spec_blocks(es).is_prefix_of(em),
    ensures
        forall|i: int|
            0 <= i < es.len() ==> {
                let lh = spec_local_header(
                    (#[trigger] es[i]).name@,
                    method_tag(es[i].method),
                    es[i].extra@,
                );
                &&& es[i].local_header_offset + lh.len() <= em.len()
                &&& em.subrange(
                    es[i].local_header_offset as int,
                    es[i].local_header_offset + lh.len(),
                ) == lh
            },
{
    assert forall|i: int| 0 <= i < es.len() implies {
        let lh = spec_local_header((#[trigger] es[i]).name@, method_tag(es[i].method), es[i].extra@);
        &&& es[i].local_header_offset + lh.len() <= em.len()
        &&& em.subrange(es[i].local_header_offset as int, es[i].local_header_offset + lh.len())
            == lh
    } by {
        let lh = spec_local_header(es[i].name@, method_tag(es[i].method), es[i].extra@);
        let off = es[i].local_header_offset as int;
        lemma_blocks_take_succ(es, i);
        lemma_blocks_take_prefix(es, i + 1);
        assert(off == spec_blocks(es.take(i)).len());
        assert(spec_blocks(es.take(i + 1)).is_prefix_of(em));
        assert(off + lh.len() <= spec_blocks(es.take(i + 1)).len());
        assert(em.subrange(off, off + lh.len()) =~= lh) by {
            assert forall|k: int| 0 <= k < lh.len() implies em[off + k] == lh[k] by {
                assert(em[off + k] == spec_blocks(es.take(i + 1))[off + k]);
                assert(spec_blocks(es.take(i + 1))[off + k] == spec_entry_block(es[i])[k]);
                assert(spec_entry_block(es[i])[k] == lh[k]);
            }
        }
    }
}

/// Directory skip: a run that streamed no files yields a container holding
/// nothing but a valid, empty central directory: its bytes are exactly the
/// end record with entry count zero, directory size zero and offset zero.
pub proof fn lemma_empty_archive(m: Method, lvl: u32)
    ensures
        spec_archive(Seq::empty(), m, lvl) == spec_eocd(0, 0, 0),
{
    assert(spec_archive(Seq::empty(), m, lvl) =~= spec_eocd(0, 0, 0));
}

/// Determinism modulo order: the archive's bytes are a pure function of the
/// (name, content) pairs in their streamed order, the method and the level —
/// two runs over equal sequences produce byte-identical output, as `finish`'s
/// contract pins each run's output to exactly this function.
pub proof fn lemma_determinism(
    fs1: Seq<(Seq<u8>, Seq<u8>)>,
    fs2: Seq<(Seq<u8>, Seq<u8>)>,
    m: Method,
    lvl: u32,
)
    requires
        fs1 == fs2,
    ensures
        spec_archive(fs1, m, lvl) == spec_archive(fs2, m, lvl),
{
}

/// Chunked streaming: feeding a file's bytes in pieces accumulates exactly
/// their concatenation — `feed`'s contract extends the fed sequence by each
/// chunk, and sequence concatenation is associative — so the checksum, sizes
/// and output that `file_end` records depend only on the file's bytes, never
/// on the chunk boundaries used to stream them.
pub proof fn lemma_chunking(fed: Seq<u8>, a: Seq<u8>, b: Seq<u8>)
    ensures
        (fed + a) + b == fed + (a + b),
{
    assert((fed + a) + b =~= fed + (a + b));
}

/// Entry count invariant: the end record's two count fields of a run's
/// archive hold exactly the number of files streamed (the run's invariant
/// makes that also the number of central directory records).
pub proof fn lemma_entry_count(fs: Seq<(Seq<u8>, Seq<u8>)>, m: Method, lvl: u32)
    requires
        fs.len() <= 0xFFFF,
    ensures
        spec_archive(fs, m, lvl).len() >= 22,
        spec_archive(fs, m, lvl).subrange(
            spec_archive(fs, m, lvl).len() - 14,
            spec_archive(fs, m, lvl).len() - 12,
        ) == le16(fs.len() as u16),
        spec_archive(fs, m, lvl).subrange(
            spec_archive(fs, m, lvl).len() - 12,
            spec_archive(fs, m, lvl).len() - 10,
        ) == le16(fs.len() as u16),
{
    reveal(spec_eocd);
    let a = spec_archive(fs, m, lvl);
    let e = spec_eocd(
        fs.len() as u16,
        spec_files_central(fs, m, lvl).len() as u32,
        spec_files_blocks(fs, m, lvl).len() as u32,
    );
    assert(e.len() == 22);
    assert(a.subrange(a.len() - 14, a.len() - 12) =~= le16(fs.len() as u16));
    assert(a.subrange(a.len() - 12, a.len() - 10) =~= le16(fs.len() as u16));
}

/// The run invariant ties counts together: at every state of a run, the
/// number of files streamed equals the number of central directory records.
pub proof fn lemma_run_counts(a: Archiver)
    requires
        a.wf(),
    ensures
        a.files@.len() == a.writer.dir@.len(),
{
}

proof fn lemma_files_blocks_take_succ(fs: Seq<(Seq<u8>, Seq<u8>)>, m: Method, lvl: u32, i: int)
    requires
        0 <= i < fs.len(),
    ensures
        spec_files_blocks(fs.take(i + 1), m, lvl) == spec_files_blocks(fs.take(i), m, lvl)
            + spec_file_block(fs[i].0, fs[i].1, m, lvl),
{
    assert(fs.take(i + 1).drop_last() =~= fs.take(i));
    assert(fs.take(i + 1).last() == fs[i]);
}

proof fn lemma_files_blocks_take_prefix(fs: Seq<(Seq<u8>, Seq<u8>)>, m: Method, lvl: u32, j: int)
    requires
        0 <= j <= fs.len(),
    ensures
        spec_files_blocks(fs.take(j), m, lvl).is_prefix_of(spec_files_blocks(fs, m, lvl)),
    decreases fs.len() - j,
{
    if j == fs.len() {
        assert(fs.take(j) =~= fs);
    } else {
        lemma_files_blocks_take_succ(fs, m, lvl, j);
        lemma_files_blocks_take_prefix(fs, m, lvl, j + 1);
        assert(spec_files_blocks(fs.take(j), m, lvl).is_prefix_of(
            spec_files_blocks(fs.take(j + 1), m, lvl),
        ));
    }
}

/// Round-trip for stored entries: in a run's archive, each file's exact bytes
/// stand immediately after that entry's local header, whose own position is
/// what the central directory names (`lemma_offset_integrity`); a compliant
/// reader that follows the directory therefore recovers every stored file's
/// content and name unchanged. For a compressing run the bytes at the same
/// position are the file's deflate stream, whose inversion is the codec's
/// contract, not the container's.
pub proof fn lemma_stored_round_trip(fs: Seq<(Seq<u8>, Seq<u8>)>, lvl: u32, i: int)
    requires
        0 <= i < fs.len(),
    ensures
        ({
            let a = spec_archive(fs, Method::Stored, lvl);
            let off = spec_files_blocks(fs.take(i), Method::Stored, lvl).len() as int;
            let hlen = spec_local_header(
                fs[i].0,
                method_tag(Method::Stored),
                crate::archive::zero_extra(),
            ).len() as int;
            &&& off + hlen + fs[i].1.len() <= a.len()
            &&& a.subrange(off + hlen, off + hlen + fs[i].1.len() as int) == fs[i].1
        }),
{
    let m = Method::Stored;
    let a = spec_archive(fs, m, lvl);
    let blocks = spec_files_blocks(fs, m, lvl);
    let off = spec_files_blocks(fs.take(i), m, lvl).len() as int;
    let block = spec_file_block(fs[i].0, fs[i].1, m, lvl);
    let hlen = spec_local_header(fs[i].0, method_tag(m), crate::archive::zero_extra()).len() as int;
    let content = fs[i].1;
    lemma_files_blocks_take_succ(fs, m, lvl, i);
    lemma_files_blocks_take_prefix(fs, m, lvl, i + 1);
    assert(blocks.is_prefix_of(a)) by {
        assert(a.subrange(0, blocks.len() as int) =~= blocks);
    }
    assert(off + hlen + content.len() <= a.len());
    assert(a.subrange(off + hlen, off + hlen + content.len() as int) =~= content) by {
        assert forall|k: int| 0 <= k < content.len() implies a[off + hlen + k] == content[k] by {
            assert(a[off + hlen + k] == spec_files_blocks(fs.take(i + 1), m, lvl)[off + hlen + k]);
            assert(spec_files_blocks(fs.take(i + 1), m, lvl)[off + hlen + k] == block[hlen + k]);
            assert(block[hlen + k] == content[k]);
        }
    }
}

} // verus!
