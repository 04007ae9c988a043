use zipdir::archive::{should_archive, ArchiveError, Archiver, EntryKind};
use zipdir::compress::Method;
use zipdir::name::{check_utf8, encode_entry_name};

fn comps(path: &str) -> Vec<Vec<u8>> {
    path.split('/').map(|c| c.as_bytes().to_vec()).collect()
}

/// Drives one whole run, feeding each file's bytes in `chunk`-sized pieces,
/// and returns the archive bytes.
fn run_archive(files: &[(&str, &[u8])], method: Method, level: u32, chunk: usize) -> Vec<u8> {
    let mut a = Archiver::new(method, level);
    let mut out: Vec<u8> = Vec::new();
    for (name, content) in files {
        out.extend_from_slice(&a.start_file(&comps(name)).unwrap());
        for piece in content.chunks(chunk.max(1)) {
            out.extend_from_slice(&a.file_chunk(piece).unwrap());
        }
        out.extend_from_slice(&a.file_end().unwrap());
    }
    out.extend_from_slice(&a.finish().unwrap());
    out
}

fn rd16(b: &[u8], at: usize) -> u16 {
    (b[at] as u16) | ((b[at + 1] as u16) << 8)
}

fn rd32(b: &[u8], at: usize) -> u32 {
    (b[at] as u32)
        | ((b[at + 1] as u32) << 8)
        | ((b[at + 2] as u32) << 16)
        | ((b[at + 3] as u32) << 24)
}

struct CdEntry {
    name: Vec<u8>,
    method: u16,
    crc: u32,
    compressed_size: u32,
    uncompressed_size: u32,
    local_header_offset: u32,
}

/// A miniature compliant reader: locates the end record, walks the central
/// directory, and returns its entries plus the end record's fields.
fn read_central_directory(b: &[u8]) -> (Vec<CdEntry>, u16, u32, u32) {
    let eocd = b.len() - 22;
    assert_eq!(rd32(b, eocd), 0x06054B50);
    let count = rd16(b, eocd + 10);
    let cd_size = rd32(b, eocd + 12);
    let cd_offset = rd32(b, eocd + 16);
    let mut entries = Vec::new();
    let mut at = cd_offset as usize;
    for _ in 0..count {
        assert_eq!(rd32(b, at), 0x02014B50);
        let method = rd16(b, at + 10);
        let crc = rd32(b, at + 16);
        let compressed_size = rd32(b, at + 20);
        let uncompressed_size = rd32(b, at + 24);
        let name_len = rd16(b, at + 28) as usize;
        let extra_len = rd16(b, at + 30) as usize;
        let comment_len = rd16(b, at + 32) as usize;
        let local_header_offset = rd32(b, at + 42);
        let name = b[at + 46..at + 46 + name_len].to_vec();
        entries.push(CdEntry { name, method, crc, compressed_size, uncompressed_size, local_header_offset });
        at += 46 + name_len + extra_len + comment_len;
    }
    assert_eq!(at - cd_offset as usize, cd_size as usize);
    (entries, count, cd_size, cd_offset)
}

/// Extracts one entry's content through its central directory record, as a
/// compliant reader would, checking the local header on the way.
fn extract(b: &[u8], e: &CdEntry) -> Vec<u8> {
    let at = e.local_header_offset as usize;
    assert_eq!(rd32(b, at), 0x04034B50);
    assert_eq!(rd16(b, at + 4), 20);
    assert_eq!(rd16(b, at + 6), 0x0808);
    assert_eq!(rd16(b, at + 8), e.method);
    let name_len = rd16(b, at + 26) as usize;
    let extra_len = rd16(b, at + 28) as usize;
    assert_eq!(&b[at + 30..at + 30 + name_len], &e.name[..]);
    let data_at = at + 30 + name_len + extra_len;
    let data = &b[data_at..data_at + e.compressed_size as usize];
    let content = match e.method {
        0 => data.to_vec(),
        8 => {
            let mut out = Vec::new();
            let mut dec = flate2::read::DeflateDecoder::new(data);
            std::io::Read::read_to_end(&mut dec, &mut out).unwrap();
            out
        }
        _ => panic!("unexpected method"),
    };
    let mut h = crc32fast::Hasher::new();
    h.update(&content);
    assert_eq!(h.finalize(), e.crc);
    assert_eq!(content.len(), e.uncompressed_size as usize);
    content
}

#[test]
fn empty_archive_is_eocd_only() {
    let out = run_archive(&[], Method::Stored, 0, 1024);
    let mut expected = vec![0x50u8, 0x4B, 0x05, 0x06];
    expected.extend_from_slice(&[0; 16]);
    expected.extend_from_slice(&[0, 0]);
    assert_eq!(out, expected);
}

#[test]
fn directory_skip_yields_empty_archive() {
    assert!(!should_archive(EntryKind::Directory));
    assert!(!should_archive(EntryKind::Other));
    assert!(should_archive(EntryKind::File));
    let mut a = Archiver::new(Method::Stored, 0);
    for kind in [EntryKind::Directory, EntryKind::Directory, EntryKind::Other] {
        if should_archive(kind) {
            panic!("no entry may be opened for a non-file");
        }
    }
    let out = a.finish().unwrap();
    assert_eq!(out.len(), 22);
    let (entries, count, cd_size, cd_offset) = read_central_directory(&out);
    assert_eq!(entries.len(), 0);
    assert_eq!(count, 0);
    assert_eq!(cd_size, 0);
    assert_eq!(cd_offset, 0);
}

#[test]
fn stored_single_entry_layout() {
    let out = run_archive(&[("hello.txt", b"hello")], Method::Stored, 0, 1024);
    // local header
    assert_eq!(rd32(&out, 0), 0x04034B50);
    assert_eq!(rd16(&out, 4), 20); // version needed
    assert_eq!(rd16(&out, 6), 0x0808); // descriptor deferred, UTF-8 name
    assert_eq!(rd16(&out, 8), 0); // stored
    assert_eq!(rd32(&out, 14), 0); // crc deferred
    assert_eq!(rd16(&out, 26), 9); // name length
    assert_eq!(rd16(&out, 28), 32); // extra length
    assert_eq!(&out[30..39], b"hello.txt");
    assert_eq!(&out[39..71], &[0u8; 32]);
    // data
    assert_eq!(&out[71..76], b"hello");
    // descriptor
    assert_eq!(rd32(&out, 76), 0x08074B50);
    let mut h = crc32fast::Hasher::new();
    h.update(b"hello");
    assert_eq!(rd32(&out, 80), h.finalize());
    assert_eq!(rd32(&out, 84), 5); // compressed size
    assert_eq!(rd32(&out, 88), 5); // uncompressed size
    // trailer
    let (entries, count, _, cd_offset) = read_central_directory(&out);
    assert_eq!(count, 1);
    assert_eq!(cd_offset, 92);
    assert_eq!(entries[0].local_header_offset, 0);
    assert_eq!(extract(&out, &entries[0]), b"hello");
}

#[test]
fn crc_of_standard_check_value() {
    let out = run_archive(&[("c.bin", b"123456789")], Method::Stored, 0, 4);
    let (entries, _, _, _) = read_central_directory(&out);
    assert_eq!(entries[0].crc, 0xCBF43926);
}

#[test]
fn round_trip_stored() {
    let files: &[(&str, &[u8])] = &[
        ("a.txt", b"alpha"),
        ("dir/b.bin", &[0u8, 1, 2, 255, 254]),
        ("empty.dat", b""),
        ("h\u{e9}llo/\u{6f22}\u{5b57}.txt", "non-ASCII \u{1F389} content".as_bytes()),
    ];
    let out = run_archive(files, Method::Stored, 0, 3);
    let (entries, count, _, _) = read_central_directory(&out);
    assert_eq!(count as usize, files.len());
    for (e, (name, content)) in entries.iter().zip(files.iter()) {
        assert_eq!(e.name, name.as_bytes());
        assert_eq!(extract(&out, e), *content);
    }
}

#[test]
fn round_trip_deflate() {
    let mut big = Vec::new();
    for i in 0..50_000u32 {
        big.push((i % 251) as u8);
        big.push((i / 7 % 256) as u8);
    }
    let files: &[(&str, &[u8])] = &[("big.bin", &big), ("small.txt", b"xyz")];
    let out = run_archive(files, Method::Deflate, 9, 4096);
    let (entries, count, _, _) = read_central_directory(&out);
    assert_eq!(count, 2);
    for (e, (name, content)) in entries.iter().zip(files.iter()) {
        assert_eq!(e.name, name.as_bytes());
        assert_eq!(e.method, 8);
        assert_eq!(extract(&out, e), *content);
    }
    assert!(entries[0].compressed_size < big.len() as u32);
}

#[test]
fn chunked_streaming_matches_whole_file() {
    let mut content = Vec::new();
    for i in 0..200_000u32 {
        content.push((i * 31 % 256) as u8);
    }
    // a chunk size far smaller than the file proves no whole-file buffering
    let out = run_archive(&[("big", &content)], Method::Stored, 0, 100);
    let (entries, _, _, _) = read_central_directory(&out);
    assert_eq!(entries[0].uncompressed_size as usize, content.len());
    assert_eq!(entries[0].compressed_size as usize, content.len());
    let mut h = crc32fast::Hasher::new();
    h.update(&content);
    assert_eq!(entries[0].crc, h.finalize());
    assert_eq!(extract(&out, &entries[0]), content);
    // the same bytes in one chunk give the identical archive
    let whole = run_archive(&[("big", &content)], Method::Stored, 0, usize::MAX);
    assert_eq!(out, whole);
}

#[test]
fn determinism_same_inputs_same_bytes() {
    let files: &[(&str, &[u8])] = &[("x/a", b"same bytes"), ("x/b", b"more bytes")];
    let one = run_archive(files, Method::Deflate, 9, 7);
    let two = run_archive(files, Method::Deflate, 9, 7);
    assert_eq!(one, two);
}

#[test]
fn offset_integrity_three_entries() {
    let files: &[(&str, &[u8])] = &[("one", b"1"), ("two", b"22"), ("three", b"333")];
    let out = run_archive(files, Method::Stored, 0, 1);
    let (entries, _, _, _) = read_central_directory(&out);
    for (e, (name, _)) in entries.iter().zip(files.iter()) {
        let at = e.local_header_offset as usize;
        assert_eq!(rd32(&out, at), 0x04034B50);
        let name_len = rd16(&out, at + 26) as usize;
        assert_eq!(&out[at + 30..at + 30 + name_len], name.as_bytes());
    }
}

#[test]
fn name_rejection_aborts_run() {
    let mut a = Archiver::new(Method::Stored, 0);
    let bad = vec![vec![0xFFu8, 0xFE, b'a']];
    let r = a.start_file(&bad);
    assert!(matches!(r, Err(ArchiveError::InvalidName)));
    // nothing was written for the rejected entry; the run can only end
    let out = a.finish().unwrap();
    assert_eq!(out.len(), 22);
}

#[test]
fn encode_entry_name_joins_components() {
    let n = encode_entry_name(&comps("dir/sub/f.txt")).unwrap();
    assert_eq!(n, b"dir/sub/f.txt");
    let single = encode_entry_name(&comps("plain")).unwrap();
    assert_eq!(single, b"plain");
    let non_ascii = encode_entry_name(&vec!["h\u{e9}llo".as_bytes().to_vec()]).unwrap();
    assert_eq!(non_ascii, "h\u{e9}llo".as_bytes());
}

#[test]
fn encode_entry_name_rejects_invalid_text() {
    let r = encode_entry_name(&vec![vec![b'a', 0xC0, 0x80]]);
    assert!(r.is_err());
    let r2 = encode_entry_name(&vec![vec![0x80]]);
    assert!(r2.is_err());
}

#[test]
fn utf8_validation_cases() {
    assert!(check_utf8(&b"plain ascii".to_vec()));
    assert!(check_utf8(&"caf\u{e9} \u{6f22}\u{5b57} \u{1F389}".as_bytes().to_vec()));
    assert!(check_utf8(&Vec::new()));
    // lone continuation byte
    assert!(!check_utf8(&vec![0x80]));
    // overlong encoding
    assert!(!check_utf8(&vec![0xC0, 0x80]));
    assert!(!check_utf8(&vec![0xC1, 0xBF]));
    // surrogate code point
    assert!(!check_utf8(&vec![0xED, 0xA0, 0x80]));
    // beyond the last scalar value
    assert!(!check_utf8(&vec![0xF5, 0x80, 0x80, 0x80]));
    assert!(!check_utf8(&vec![0xF4, 0x90, 0x80, 0x80]));
    // truncated sequences
    assert!(!check_utf8(&vec![0xE2, 0x82]));
    assert!(!check_utf8(&vec![0xF0, 0x9F, 0x8E]));
    // every boundary that is valid
    assert!(check_utf8(&vec![0x7F]));
    assert!(check_utf8(&vec![0xC2, 0x80]));
    assert!(check_utf8(&vec![0xDF, 0xBF]));
    assert!(check_utf8(&vec![0xE0, 0xA0, 0x80]));
    assert!(check_utf8(&vec![0xED, 0x9F, 0xBF]));
    assert!(check_utf8(&vec![0xEF, 0xBF, 0xBF]));
    assert!(check_utf8(&vec![0xF0, 0x90, 0x80, 0x80]));
    assert!(check_utf8(&vec![0xF4, 0x8F, 0xBF, 0xBF]));
}

#[test]
fn wrong_filename_error_constructs() {
    let e = zipdir::WrongFilenameError::new();
    let _ = format!("{:?}", e);
}

#[test]
fn deflate_wrapper_not_identity() {
    // a compressing run must not hand its input back unchanged
    let content = vec![b'z'; 10_000];
    let out = run_archive(&[("z", &content)], Method::Deflate, 9, 1000);
    let (entries, _, _, _) = read_central_directory(&out);
    assert!(entries[0].compressed_size < entries[0].uncompressed_size);
    assert_eq!(extract(&out, &entries[0]), content);
}

#[test]
fn too_large_name_is_rejected() {
    let mut a = Archiver::new(Method::Stored, 0);
    let long = vec![vec![b'a'; 70_000]];
    let r = a.start_file(&long);
    assert!(matches!(r, Err(ArchiveError::TooLarge)));
    let out = a.finish().unwrap();
    assert_eq!(out.len(), 22);
}

#[test]
fn deflate_output_independent_of_chunking() {
    let mut content = Vec::new();
    for i in 0..120_000u32 {
        content.push((i % 97) as u8);
    }
    let files: &[(&str, &[u8])] = &[("data.bin", &content)];
    let fine = run_archive(files, Method::Deflate, 9, 7);
    let coarse = run_archive(files, Method::Deflate, 9, 65_536);
    assert_eq!(fine, coarse);
}
