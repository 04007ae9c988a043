//! Compression pipeline: wraps an entry's byte stream with a streaming
//! transform, producing output incrementally as input chunks arrive, while
//! accumulating the CRC-32 and the byte count of the uncompressed input.
//!
//! The deflate codec of the `flate2` crate is trusted at its interface: the
//! encoder is modelled by the bytes fed to it (`defl_fed`), the output bytes
//! already handed out (`defl_taken`) and its level; the complete stream for a
//! given input and level is given the name `deflate_of`, a function of those
//! arguments alone.

use vstd::prelude::*;
use crate::checksum::{crc_fed, crc32_of, crc_new, crc_update, crc_finalize};

verus! {

/// The codec reported a failure while transforming entry bytes.
#[derive(Debug)]
pub struct CompressionError;

/// The compression method applied to an entry's bytes. The method tag written
/// into the container always names the transform actually applied.
#[derive(Clone, Copy, PartialEq, Eq, Structural, Debug)]
pub enum Method {
    /// Bytes are stored unchanged.
    Stored,
    /// Bytes pass through a raw deflate stream.
    Deflate,
}

/// Holds flate2's streaming deflate encoder over a Vec sink. The encoder's
/// generic bound keeps its type from being declared to the verifier directly,
/// so it lives behind this opaque struct, specified only through `defl_fed`,
/// `defl_taken` and `defl_level` below.
#[verifier::external_body]
pub struct Deflater {
    inner: flate2::write::DeflateEncoder<Vec<u8>>,
}

/// The uncompressed bytes fed to an encoder so far.
pub uninterp spec fn defl_fed(c: Deflater) -> Seq<u8>;

/// The compressed bytes already taken out of an encoder's sink.
pub uninterp spec fn defl_taken(c: Deflater) -> Seq<u8>;

/// The compression level an encoder was created with.
pub uninterp spec fn defl_level(c: Deflater) -> u32;

/// The complete raw deflate stream for the given input at the given level.
pub uninterp spec fn deflate_of(data: Seq<u8>, level: u32) -> Seq<u8>;

/// Relies on flate2::write::DeflateEncoder::new over a fresh Vec sink: a raw
/// deflate stream at the given level, with nothing fed and nothing produced.
#[verifier::external_body]
pub(crate) fn defl_new(level: u32) -> (c: Deflater)
    requires
        level <= 9,
    ensures
        defl_fed(c) == Seq::<u8>::empty(),
        defl_taken(c) == Seq::<u8>::empty(),
        defl_level(c) == level,
{
    Deflater { inner: flate2::write::DeflateEncoder::new(Vec::new(), flate2::Compression::new(level)) }
}

/// Relies on std::io::Write::write_all for DeflateEncoder (feeds input to the
/// compressor, pushing ready output to the inner Vec, whose own writes cannot
/// fail) and on DeflateEncoder::get_mut, whose documentation states that
/// taking the sink's bytes forwards the stream: concatenating everything taken
/// reconstructs the compressor's output.
#[verifier::external_body]
pub(crate) fn defl_write(c: &mut Deflater, data: &[u8]) -> (r: Result<
    Vec<u8>,
    CompressionError,
>)
    ensures
        r is Ok ==> {
            &&& defl_fed(*final(c)) == defl_fed(*old(c)) + data@
            &&& defl_taken(*final(c)) == defl_taken(*old(c)) + r->Ok_0@
            &&& defl_level(*final(c)) == defl_level(*old(c))
        },
{
    match std::io::Write::write_all(&mut c.inner, data) {
        Ok(()) => Ok(std::mem::take(c.inner.get_mut())),
        Err(_) => Err(CompressionError),
    }
}

/// Relies on DeflateEncoder::finish: closes the deflate stream and returns the
/// sink with all remaining output, so that everything taken plus this tail is
/// the whole stream, a function of the bytes fed and the level alone.
#[verifier::external_body]
pub(crate) fn defl_finish(c: Deflater) -> (r: Result<
    Vec<u8>,
    CompressionError,
>)
    ensures
        r is Ok ==> defl_taken(c) + r->Ok_0@ == deflate_of(defl_fed(c), defl_level(c)),
{
    match c.inner.finish() {
        Ok(v) => Ok(v),
        Err(_) => Err(CompressionError),
    }
}

/// The bytes an entry's stream hands to the container for a given input:
/// the input itself when stored, its deflate stream when compressed.
pub open spec fn transform_of(m: Method, level: u32, data: Seq<u8>) -> Seq<u8> {
    match m {
        Method::Stored => data,
        Method::Deflate => deflate_of(data, level),
    }
}

/// One entry's streaming transform: takes the entry's uncompressed bytes in
/// chunks of any size, hands back the transformed bytes as they become
/// available, and accumulates the CRC-32 and length of the input. No chunk is
/// ever buffered beyond what the codec itself holds.
pub struct EntryStream {
    method: Method,
    level: u32,
    hasher: crc32fast::Hasher,
    encoder: Deflater,
    fed_len: u64,
    fed: Ghost<Seq<u8>>,
    taken: Ghost<Seq<u8>>,
}

impl EntryStream {
    /// The uncompressed bytes fed so far.
    pub closed spec fn fed(self) -> Seq<u8> {
        self.fed@
    }

    /// The transformed bytes handed out so far.
    pub closed spec fn taken(self) -> Seq<u8> {
        self.taken@
    }

    pub closed spec fn method(self) -> Method {
        self.method
    }

    pub closed spec fn level(self) -> u32 {
        self.level
    }

    /// Internal consistency: the hasher has seen exactly the bytes fed, the
    /// count matches, and the transform state matches the method.
    pub closed spec fn wf(self) -> bool {
        &&& crc_fed(self.hasher) == self.fed@
        &&& self.fed_len == self.fed@.len()
        &&& self.level <= 9
        &&& match self.method {
            Method::Stored => self.taken@ == self.fed@,
            Method::Deflate => {
                &&& defl_fed(self.encoder) == self.fed@
                &&& defl_taken(self.encoder) == self.taken@
                &&& defl_level(self.encoder) == self.level
            },
        }
    }

    /// The length of the uncompressed bytes fed so far.
    pub fn fed_so_far(&self) -> (n: u64)
        requires
            self.wf(),
        ensures
            n == self.fed().len(),
    {
        self.fed_len
    }

    /// Opens the stream for one entry.
    pub fn begin(method: Method, level: u32) -> (s: Self)
        requires
            level <= 9,
        ensures
            s.wf(),
            s.method() == method,
            s.level() == level,
            s.fed() == Seq::<u8>::empty(),
            s.taken() == Seq::<u8>::empty(),
    {
        EntryStream {
            method,
            level,
            hasher: crc_new(),
            encoder: defl_new(level),
            fed_len: 0,
            fed: Ghost(Seq::empty()),
            taken: Ghost(Seq::empty()),
        }
    }

    /// Feeds one chunk of the entry's bytes; returns the transformed bytes
    /// that became available. When the method is Stored no codec is involved
    /// and success is certain; when it compresses, a codec failure is
    /// propagated and the stream must be abandoned.
    pub fn feed(&mut self, data: &[u8]) -> (r: Result<Vec<u8>, CompressionError>)
        requires
            old(self).wf(),
            old(self).fed().len() + data@.len() <= 0xFFFF_FFFF,
        ensures
            old(self).method() is Stored ==> r is Ok,
            old(self).method() is Stored && r is Ok ==> r->Ok_0@ == data@,
            r is Ok ==> {
                &&& final(self).wf()
                &&& final(self).method() == old(self).method()
                &&& final(self).level() == old(self).level()
                &&& final(self).fed() == old(self).fed() + data@
                &&& final(self).taken() == old(self).taken() + r->Ok_0@
            },
    {
        crc_update(&mut self.hasher, data);
        self.fed_len = self.fed_len + data.len() as u64;
        proof {
            self.fed@ = self.fed@ + data@;
        }
        match self.method {
            Method::Stored => {
                let out = vstd::slice::slice_to_vec(data);
                proof {
                    self.taken@ = self.taken@ + out@;
                }
                Ok(out)
            },
            Method::Deflate => {
                match defl_write(&mut self.encoder, data) {
                    Ok(out) => {
                        proof {
                            self.taken@ = self.taken@ + out@;
                        }
                        Ok(out)
                    },
                    Err(e) => Err(e),
                }
            },
        }
    }

    /// Closes the stream: returns the transform's remaining output together
    /// with the CRC-32 and the length of everything fed. The bytes handed out
    /// over the stream's whole life, with this tail, are exactly the
    /// transform of the bytes fed.
    pub fn finish(self) -> (r: Result<(Vec<u8>, u32, u64), CompressionError>)
        requires
            self.wf(),
        ensures
            self.method() is Stored ==> r is Ok,
            self.method() is Stored && r is Ok ==> r->Ok_0.0@ == Seq::<u8>::empty(),
            r is Ok ==> {
                &&& self.taken() + r->Ok_0.0@ == transform_of(
                    self.method(),
                    self.level(),
                    self.fed(),
                )
                &&& r->Ok_0.1 == crc32_of(self.fed())
                &&& r->Ok_0.2 == self.fed().len()
            },
    {
        let EntryStream { method, level: _, hasher, encoder, fed_len, fed: _, taken: _ } = self;
        let crc = crc_finalize(hasher);
        match method {
            Method::Stored => {
                let tail: Vec<u8> = Vec::new();
                proof {
                    assert(self.taken() + tail@ =~= self.fed());
                }
                Ok((tail, crc, fed_len))
            },
            Method::Deflate => {
                match defl_finish(encoder) {
                    Ok(tail) => Ok((tail, crc, fed_len)),
                    Err(e) => Err(e),
                }
            },
        }
    }
}

} // verus!
