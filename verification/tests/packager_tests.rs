use ikv::errors::SyncErrorKind;
use ikv::packager::{is_safe_rel_path, pack, unpack, FileEntry};
use std::io::Read;
use std::io::Write;

fn entry(path: &str, contents: &[u8]) -> FileEntry {
    FileEntry {
        path: path.to_string(),
        contents: contents.to_vec(),
    }
}

#[test]
fn pack_unpack_round_trips() {
    // Contents and relative paths come back byte for byte.
    let files = vec![
        entry("index_info", b"version=3\n"),
        entry("segments/segment_0.dat", &[0u8, 1, 2, 255, 254, 0, 0, 7]),
        entry("segments/segment_1.dat", b""),
        entry("deep/a/b/c/d.bin", &vec![42u8; 70_000]),
    ];
    let bytes = pack(&files).unwrap();
    let out = unpack(&bytes).unwrap();
    assert_eq!(out.len(), files.len());
    for (got, want) in out.iter().zip(files.iter()) {
        assert_eq!(got.path, want.path);
        assert_eq!(got.contents, want.contents);
    }
}

#[test]
fn pack_unpack_round_trips_empty_tree() {
    let files: Vec<FileEntry> = vec![];
    let bytes = pack(&files).unwrap();
    let out = unpack(&bytes).unwrap();
    assert!(out.is_empty());
}

#[test]
fn pack_unpack_round_trips_long_path() {
    // Over tar's short-header limit, so the GNU long-name extension is on
    // the round-trip path too.
    let long = format!("{}/file.dat", "d".repeat(150));
    let files = vec![entry(&long, b"payload")];
    let bytes = pack(&files).unwrap();
    let out = unpack(&bytes).unwrap();
    assert_eq!(out[0].path, long);
    assert_eq!(out[0].contents, b"payload");
}

#[test]
fn pack_rejects_unsafe_paths() {
    for bad in ["", "/abs", "a//b", "../escape", "a/./b", "a/..", ".", "a\u{0}b"] {
        let err = pack(&vec![entry(bad, b"x")]).unwrap_err();
        assert_eq!(err.kind(), SyncErrorKind::Archive, "path {:?}", bad);
    }
}

#[test]
fn safe_path_check() {
    assert!(is_safe_rel_path("a"));
    assert!(is_safe_rel_path("a/b/c.dat"));
    assert!(is_safe_rel_path("..a/b..")); // dots inside names are fine
    assert!(!is_safe_rel_path(""));
    assert!(!is_safe_rel_path("/a"));
    assert!(!is_safe_rel_path("a/"));
    assert!(!is_safe_rel_path("a/../b"));
    assert!(!is_safe_rel_path("./a"));
}

#[test]
fn unpack_rejects_garbage() {
    let err = unpack(b"this is not a gzip stream").unwrap_err();
    assert_eq!(err.kind(), SyncErrorKind::Archive);
}

#[test]
fn unpack_rejects_truncated_archive() {
    let files = vec![entry("a.bin", &vec![9u8; 50_000])];
    let bytes = pack(&files).unwrap();
    let err = unpack(&bytes[..bytes.len() / 2]).unwrap_err();
    assert_eq!(err.kind(), SyncErrorKind::Archive);
}

/// Builds a gzip-compressed tar stream with one entry at `path`, bypassing
/// the library, so entries the packer would never write can be fed in.
fn handmade_archive(path: &str, contents: &[u8]) -> Vec<u8> {
    let enc = flate2::write::GzEncoder::new(Vec::new(), flate2::Compression::default());
    let mut builder = tar::Builder::new(enc);
    let mut header = tar::Header::new_gnu();
    header.set_size(contents.len() as u64);
    header.set_cksum();
    builder.append_data(&mut header, path, contents).unwrap();
    builder.into_inner().unwrap().finish().unwrap()
}

#[test]
fn unpack_rejects_entry_outside_top_level_name() {
    let bytes = handmade_archive("elsewhere/file", b"x");
    let err = unpack(&bytes).unwrap_err();
    assert_eq!(err.kind(), SyncErrorKind::Archive);
}

#[test]
fn unpack_rejects_traversal_entry() {
    // tar's own builder refuses `..` at write time, so the header's name
    // bytes are written directly to smuggle the entry in.
    let enc = flate2::write::GzEncoder::new(Vec::new(), flate2::Compression::default());
    let mut builder = tar::Builder::new(enc);
    let mut header = tar::Header::new_gnu();
    let path = b"base_index/../../etc/passwd";
    header.as_gnu_mut().unwrap().name[..path.len()].copy_from_slice(path);
    header.set_size(1);
    header.set_cksum();
    builder.append(&header, b"x".as_slice()).unwrap();
    let bytes = builder.into_inner().unwrap().finish().unwrap();
    let err = unpack(&bytes).unwrap_err();
    assert_eq!(err.kind(), SyncErrorKind::Archive);
}

#[test]
fn packed_stream_is_real_gzip_tar() {
    // The packed bytes must be a genuine gzip-compressed tar stream that
    // foreign tooling reads, entries under the fixed top-level name.
    let files = vec![entry("seg.dat", b"abc")];
    let bytes = pack(&files).unwrap();
    let mut archive = tar::Archive::new(flate2::read::GzDecoder::new(&bytes[..]));
    let mut names = Vec::new();
    let mut payload = Vec::new();
    for e in archive.entries().unwrap() {
        let mut e = e.unwrap();
        names.push(e.path().unwrap().to_string_lossy().into_owned());
        e.read_to_end(&mut payload).unwrap();
    }
    assert_eq!(names, vec!["base_index/seg.dat".to_string()]);
    assert_eq!(payload, b"abc");
}

#[test]
fn foreign_archive_under_top_level_name_unpacks() {
    // An archive written by the tar crate itself, with the expected
    // top-level name, is accepted.
    let enc = flate2::write::GzEncoder::new(Vec::new(), flate2::Compression::default());
    let mut builder = tar::Builder::new(enc);
    for (p, c) in [("base_index/one", b"1x".as_slice()), ("base_index/two", b"2y".as_slice())] {
        let mut header = tar::Header::new_gnu();
        header.set_size(c.len() as u64);
        header.set_cksum();
        builder.append_data(&mut header, p, c).unwrap();
    }
    let mut enc = builder.into_inner().unwrap();
    enc.flush().unwrap();
    let bytes = enc.finish().unwrap();
    let out = unpack(&bytes).unwrap();
    assert_eq!(out.len(), 2);
    assert_eq!(out[0].path, "one");
    assert_eq!(out[0].contents, b"1x");
    assert_eq!(out[1].path, "two");
    assert_eq!(out[1].contents, b"2y");
}
