//! Archive packaging: an index directory tree to one gzip-compressed tar
//! stream, and back.
//!
//! The packager works on in-memory file entries; the embedding host reads
//! and writes the actual directories.  Every entry is archived under one
//! fixed top-level name, and extraction strips that name again and refuses
//! path-traversal-unsafe entries, so what comes out of [`unpack`] is always
//! a set of safe relative paths.

use vstd::prelude::*;
use vstd::slice::slice_to_vec;
use vstd::string::StrSliceExecFns;
use vstd::string::StringExecFns;
use crate::errors::SyncError;
use crate::text::lemma_split_append;
use crate::text::lemma_split_no_sep;
use crate::text::split_chars;
use crate::text::split_spec;

verus! {

/// One file of a packaged directory tree: a `/`-separated relative path and
/// its contents.
#[derive(Debug, Clone)]
pub struct FileEntry {
    /// The file's path relative to the directory being packaged.
    pub path: String,
    /// The file's bytes.
    pub contents: Vec<u8>,
}

/// The mathematical content of a list of entries: each as its path's
/// characters and its bytes.
pub open spec fn entries_view(files: Seq<FileEntry>) -> Seq<(Seq<char>, Seq<u8>)> {
    files.map_values(|f: FileEntry| (f.path@, f.contents@))
}

/// A path segment that is safe to materialize and archive faithfully:
/// nonempty, neither `.` nor `..`, and free of NUL (which a tar header
/// would truncate at).
pub open spec fn safe_segment(s: Seq<char>) -> bool {
    &&& s.len() > 0
    &&& s != seq!['.']
    &&& s != seq!['.', '.']
    &&& forall|i: int| 0 <= i < s.len() ==> #[trigger] s[i] != '\0'
}

/// A safe relative path: nonempty, with every `/`-segment safe — no
/// absolute paths, no empty segments, no traversal.
pub open spec fn safe_rel_path(p: Seq<char>) -> bool {
    &&& p.len() > 0
    &&& forall|i: int|
        0 <= i < split_spec(p, '/').len() ==> safe_segment(#[trigger] split_spec(p, '/')[i])
}

/// Every entry's path is a safe relative path.
pub open spec fn all_entries_safe(files: Seq<(Seq<char>, Seq<u8>)>) -> bool {
    forall|i: int| 0 <= i < files.len() ==> safe_rel_path(#[trigger] files[i].0)
}

/// The fixed top-level entry name every archived path is placed under.
pub open spec fn tar_root() -> Seq<char> {
    "base_index/"@
}

/// The entries as they stand in the archive: each path under the top-level
/// name.
pub open spec fn wrapped(files: Seq<(Seq<char>, Seq<u8>)>) -> Seq<(Seq<char>, Seq<u8>)> {
    files.map_values(|f: (Seq<char>, Seq<u8>)| (tar_root() + f.0, f.1))
}

/// An archive entry's path as [`pack`] writes it: the top-level name, then
/// a safe relative path.
pub open spec fn wrapped_entry_path(p: Seq<char>) -> bool {
    &&& p.len() >= tar_root().len()
    &&& p.take(tar_root().len() as int) == tar_root()
    &&& safe_rel_path(p.skip(tar_root().len() as int))
}

/// Every decoded entry sits safely under the top-level name.
pub open spec fn all_wrapped_safe(es: Seq<(Seq<char>, Seq<u8>)>) -> bool {
    forall|i: int| 0 <= i < es.len() ==> wrapped_entry_path(#[trigger] es[i].0)
}

/// What decoding a gzip-compressed tar stream yields: the entries in
/// archive order, or nothing when the bytes are not such a stream.
pub uninterp spec fn untargz_of(bytes: Seq<u8>) -> Option<Seq<(Seq<char>, Seq<u8>)>>;

/// Relies on flate2's `GzEncoder` and tar's `Builder::append_data`: decoding
/// the produced stream (gzip, then tar) yields back exactly the entries
/// appended, in order, for entries whose paths are safe relative paths.
/// Encoding such entries succeeds outright: `append_data` validates only the
/// path (which the precondition keeps valid) and otherwise fails, as
/// `into_inner` and `finish` do, only on writer I/O — and the writer here is
/// an in-memory vector, whose writes cannot fail.
#[verifier::external_body]
fn targz_encode(files: &Vec<FileEntry>) -> (r: Result<Vec<u8>, ()>)
    requires
        all_entries_safe(entries_view(files@)),
    ensures
        r is Ok,
        r matches Ok(bytes) ==> untargz_of(bytes@) == Some(entries_view(files@)),
{
    let enc = flate2::write::GzEncoder::new(Vec::new(), flate2::Compression::default());
    let mut builder = tar::Builder::new(enc);
    for f in files.iter() {
        let mut h = tar::Header::new_gnu();
        h.set_size(f.contents.len() as u64);
        h.set_cksum();
        if builder.append_data(&mut h, f.path.as_str(), f.contents.as_slice()).is_err() {
            return Err(());
        }
    }
    match builder.into_inner() {
        Ok(enc) => enc.finish().map_err(|_| ()),
        Err(_) => Err(()),
    }
}

/// Relies on flate2's `GzDecoder` and tar's `Archive::entries`: what they
/// decode is a function of the archive bytes alone; `untargz_of` names it.
#[verifier::external_body]
fn targz_decode(bytes: &[u8]) -> (r: Result<Vec<FileEntry>, ()>)
    ensures
        r matches Ok(entries) ==> untargz_of(bytes@) == Some(entries_view(entries@)),
        r is Err ==> untargz_of(bytes@) is None,
{
    let mut archive = tar::Archive::new(flate2::read::GzDecoder::new(bytes));
    let mut out: Vec<FileEntry> = Vec::new();
    let entries = archive.entries().map_err(|_| ())?;
    for entry in entries {
        let mut entry = entry.map_err(|_| ())?;
        let path = String::from_utf8(entry.path_bytes().to_vec()).map_err(|_| ())?;
        let mut contents: Vec<u8> = Vec::new();
        std::io::Read::read_to_end(&mut entry, &mut contents).map_err(|_| ())?;
        out.push(FileEntry { path, contents });
    }
    Ok(out)
}

/// Checks that `p` is a safe relative path.
pub fn is_safe_rel_path(p: &str) -> (r: bool)
    ensures
        r == safe_rel_path(p@),
{
    let n = p.unicode_len();
    if n == 0 {
        return false;
    }
    let segs = split_chars(p, '/');
    let count = segs.len();
    let mut i: usize = 0;
    while i < count
        invariant
            i <= count,
            count == segs.deep_view().len(),
            segs.deep_view() == split_spec(p@, '/'),
            forall|j: int| 0 <= j < i ==> safe_segment(#[trigger] split_spec(p@, '/')[j]),
        decreases count - i,
    {
        proof {
            assert(segs.deep_view()[i as int] == segs@[i as int]@);
        }
        let seg = &segs[i];
        let m = seg.len();
        if m == 0 {
            return false;
        }
        if m == 1 && seg[0] == '.' {
            proof {
                assert(segs@[i as int]@ =~= seq!['.']);
            }
            return false;
        }
        if m == 2 && seg[0] == '.' && seg[1] == '.' {
            proof {
                assert(segs@[i as int]@ =~= seq!['.', '.']);
            }
            return false;
        }
        let mut k: usize = 0;
        while k < m
            invariant
                k <= m,
                i < segs@.len(),
                seg@ == segs@[i as int]@,
                m == seg@.len(),
                segs.deep_view() == split_spec(p@, '/'),
                forall|t: int| 0 <= t < k ==> #[trigger] segs@[i as int]@[t] != '\0',
            decreases m - k,
        {
            if seg[k] == '\0' {
                proof {
                    assert(segs.deep_view()[i as int] == segs@[i as int]@);
                    assert(!safe_segment(split_spec(p@, '/')[i as int]));
                }
                return false;
            }
            k = k + 1;
        }
        proof {
            if segs@[i as int]@ == seq!['.'] {
                assert(segs@[i as int]@.len() == 1 && segs@[i as int]@[0] == '.');
            }
            if segs@[i as int]@ == seq!['.', '.'] {
                assert(segs@[i as int]@.len() == 2 && segs@[i as int]@[0] == '.'
                    && segs@[i as int]@[1] == '.');
            }
        }
        i = i + 1;
    }
    true
}

/// Wrapping a safe relative path under the top-level name keeps every
/// segment safe.
proof fn lemma_wrap_keeps_safe(p: Seq<char>)
    requires
        safe_rel_path(p),
    ensures
        safe_rel_path(tar_root() + p),
        split_spec(tar_root() + p, '/') == seq!["base_index"@] + split_spec(p, '/'),
{
    reveal_strlit("base_index/");
    reveal_strlit("base_index");
    assert(tar_root() + p =~= "base_index"@ + seq!['/'] + p);
    lemma_split_append("base_index"@, p, '/');
    assert(forall|i: int|
        0 <= i < "base_index"@.len() ==> #[trigger] "base_index"@[i] != '/');
    lemma_split_no_sep("base_index"@, '/');
    let w = split_spec(tar_root() + p, '/');
    assert(w == seq!["base_index"@] + split_spec(p, '/'));
    assert forall|i: int| 0 <= i < w.len() implies safe_segment(#[trigger] w[i]) by {
        if i == 0 {
            assert(w[0] == "base_index"@);
            assert("base_index"@.len() == 10);
        } else {
            assert(w[i] == split_spec(p, '/')[i - 1]);
        }
    }
}

/// Packs `files` under the fixed top-level entry name and gzip-compresses
/// the stream.  Packing succeeds exactly when every path is a safe
/// relative path, and the produced bytes then decode back to exactly the
/// wrapped entries; an unsafe path (absolute, empty segment, `.` or `..`)
/// fails with `ArchiveError`, before anything is archived.
pub fn pack(files: &Vec<FileEntry>) -> (r: Result<Vec<u8>, SyncError>)
    ensures
        r is Ok <==> all_entries_safe(entries_view(files@)),
        r matches Ok(bytes) ==> untargz_of(bytes@) == Some(wrapped(entries_view(files@))),
        r matches Err(e) ==> e.kind_spec() == crate::errors::SyncErrorKind::Archive,
{
    let n = files.len();
    let mut out: Vec<FileEntry> = Vec::new();
    let mut i: usize = 0;
    while i < n
        invariant
            i <= n,
            n == entries_view(files@).len(),
            entries_view(out@) =~= wrapped(entries_view(files@).take(i as int)),
            forall|j: int| 0 <= j < i ==> safe_rel_path(#[trigger] entries_view(files@)[j].0),
            forall|j: int| 0 <= j < i ==> safe_rel_path(#[trigger] entries_view(out@)[j].0),
        decreases n - i,
    {
        proof {
            assert(entries_view(files@)[i as int] == (files@[i as int].path@,
            files@[i as int].contents@));
        }
        if !is_safe_rel_path(files[i].path.as_str()) {
            proof {
                assert(!safe_rel_path(entries_view(files@)[i as int].0));
            }
            return Err(
                SyncError::ArchiveError {
                    detail: String::from_str("an entry is not a safe relative path"),
                },
            );
        }
        proof {
            lemma_wrap_keeps_safe(files@[i as int].path@);
        }
        let root = String::from_str("base_index/");
        let wrapped_path = root.concat(files[i].path.as_str());
        let contents = slice_to_vec(files[i].contents.as_slice());
        let ghost prev = out@;
        out.push(FileEntry { path: wrapped_path, contents });
        i = i + 1;
        proof {
            let fv = entries_view(files@);
            let ov = entries_view(out@);
            assert(entries_view(prev).len() == prev.len());
            assert(wrapped(fv.take(i - 1)).len() == i - 1);
            assert(entries_view(prev) == wrapped(fv.take(i - 1)));
            assert(prev.len() == i - 1);
            assert(out@.len() == i);
            assert forall|j: int| 0 <= j < i implies ov[j] == wrapped(fv.take(i as int))[j] by {
                assert(fv.take(i as int)[j] == fv[j]);
                assert(wrapped(fv.take(i as int))[j] == (tar_root() + fv[j].0, fv[j].1));
                if j < i - 1 {
                    assert(out@[j] == prev[j]);
                    assert(ov[j] == entries_view(prev)[j]);
                    assert(entries_view(prev)[j] == wrapped(fv.take(i - 1))[j]);
                    assert(wrapped(fv.take(i - 1))[j] == (tar_root() + fv.take(i - 1)[j].0,
                    fv.take(i - 1)[j].1));
                    assert(fv.take(i - 1)[j] == fv[j]);
                } else {
                    assert(out@[j] == out@.last());
                    assert(ov[j] == (out@[j].path@, out@[j].contents@));
                    assert(out@[j].path@ == tar_root() + files@[i - 1].path@);
                    assert(fv[j] == (files@[i - 1].path@, files@[i - 1].contents@));
                }
            }
            assert(ov =~= wrapped(fv.take(i as int)));
            assert forall|j: int| 0 <= j < i implies safe_rel_path(
                #[trigger] entries_view(out@)[j].0,
            ) by {
                assert(ov[j] == wrapped(fv.take(i as int))[j]);
                assert(safe_rel_path(fv[j].0));
                lemma_wrap_keeps_safe(fv[j].0);
            }
        }
    }
    proof {
        assert(entries_view(files@).take(n as int) =~= entries_view(files@));
    }
    match targz_encode(&out) {
        Ok(bytes) => Ok(bytes),
        Err(()) => Err(
            SyncError::ArchiveError { detail: String::from_str("the archiver failed") },
        ),
    }
}

/// Splits `p` into the top-level entry name and the rest: `Some(rest)`
/// exactly when `p` is the top-level name followed by `rest`.
fn strip_root(p: &str) -> (r: Option<String>)
    ensures
        match r {
            Some(rest) => p@ == tar_root() + rest@,
            None => !(p@.len() >= tar_root().len() && p@.take(tar_root().len() as int)
                == tar_root()),
        },
{
    let root = "base_index/";
    proof {
        reveal_strlit("base_index/");
    }
    let rl = root.unicode_len();
    let n = p.unicode_len();
    if n < rl {
        return None;
    }
    let mut i: usize = 0;
    while i < rl
        invariant
            i <= rl,
            rl == tar_root().len(),
            n == p@.len(),
            n >= rl,
            root@ == tar_root(),
            forall|j: int| 0 <= j < i ==> p@[j] == tar_root()[j],
        decreases rl - i,
    {
        if p.get_char(i) != root.get_char(i) {
            proof {
                assert(p@.take(tar_root().len() as int)[i as int] != tar_root()[i as int]);
            }
            return None;
        }
        i = i + 1;
    }
    let rest = p.substring_char(rl, n);
    proof {
        assert(p@ =~= tar_root() + rest@);
    }
    Some(String::from_str(rest))
}


/// Decompresses and reads back every entry, stripping the fixed top-level
/// entry name.  Whatever [`pack`] produced unpacks to exactly the entries it
/// was given; unpacking succeeds exactly when the bytes decode and every
/// decoded entry sits safely under the top-level name.  Corrupt bytes, an
/// entry outside the top-level name, and a path-traversal-unsafe entry all
/// fail with `ArchiveError`.
pub fn unpack(bytes: &[u8]) -> (r: Result<Vec<FileEntry>, SyncError>)
    ensures
        r is Ok <==> (untargz_of(bytes@) matches Some(es) && all_wrapped_safe(es)),
        forall|fs: Seq<(Seq<char>, Seq<u8>)>|
            all_entries_safe(fs) && untargz_of(bytes@) == Some(wrapped(fs)) ==> (r matches Ok(out)
                && entries_view(out@) == fs),
        r matches Ok(out) ==> all_entries_safe(entries_view(out@)),
        r matches Err(e) ==> e.kind_spec() == crate::errors::SyncErrorKind::Archive,
{
    let entries = match targz_decode(bytes) {
        Ok(entries) => entries,
        Err(()) => {
            return Err(
                SyncError::ArchiveError {
                    detail: String::from_str("the stream is not a well-formed archive"),
                },
            );
        },
    };
    let n = entries.len();
    let mut out: Vec<FileEntry> = Vec::new();
    let mut i: usize = 0;
    while i < n
        invariant
            i <= n,
            n == entries_view(entries@).len(),
            untargz_of(bytes@) == Some(entries_view(entries@)),
            entries_view(out@).len() == i,
            forall|j: int|
                0 <= j < i ==> entries_view(entries@)[j] == (
                tar_root() + #[trigger] entries_view(out@)[j].0,
                entries_view(out@)[j].1,
                ),
            forall|j: int| 0 <= j < i ==> safe_rel_path(#[trigger] entries_view(out@)[j].0),
        decreases n - i,
    {
        proof {
            assert(entries_view(entries@)[i as int] == (entries@[i as int].path@,
            entries@[i as int].contents@));
        }
        let rest = match strip_root(entries[i].path.as_str()) {
            Some(rest) => rest,
            None => {
                proof {
                    lemma_outside_root_not_wrapped(bytes@, entries_view(entries@), i as int);
                    assert(!wrapped_entry_path(entries_view(entries@)[i as int].0));
                }
                return Err(
                    SyncError::ArchiveError {
                        detail: String::from_str("an entry lies outside the top-level name"),
                    },
                );
            },
        };
        if !is_safe_rel_path(rest.as_str()) {
            proof {
                lemma_unsafe_rest_not_wrapped(bytes@, entries_view(entries@), i as int, rest@);
                assert((tar_root() + rest@).take(tar_root().len() as int) =~= tar_root());
                assert((tar_root() + rest@).skip(tar_root().len() as int) =~= rest@);
                assert(!wrapped_entry_path(entries_view(entries@)[i as int].0));
            }
            return Err(
                SyncError::ArchiveError {
                    detail: String::from_str("an entry's path is not safe to materialize"),
                },
            );
        }
        let contents = slice_to_vec(entries[i].contents.as_slice());
        let ghost prev = out@;
        out.push(FileEntry { path: rest, contents });
        i = i + 1;
        proof {
            let ev = entries_view(entries@);
            let ov = entries_view(out@);
            assert(entries_view(prev).len() == prev.len());
            assert(prev.len() == i - 1);
            assert(out@.len() == i);
            assert(ov.len() == i);
            assert forall|j: int|
                0 <= j < i implies ev[j] == (tar_root() + #[trigger] ov[j].0, ov[j].1)
                && safe_rel_path(ov[j].0) by {
                if j < i - 1 {
                    assert(out@[j] == prev[j]);
                    assert(ov[j] == entries_view(prev)[j]);
                } else {
                    assert(out@[j] == out@.last());
                    assert(ov[j] == (out@[j].path@, out@[j].contents@));
                }
            }
        }
    }
    proof {
        assert forall|j: int|
            0 <= j < entries_view(entries@).len() implies wrapped_entry_path(
            #[trigger] entries_view(entries@)[j].0,
        ) by {
            assert(entries_view(entries@)[j] == (tar_root() + entries_view(out@)[j].0,
            entries_view(out@)[j].1));
            assert((tar_root() + entries_view(out@)[j].0).take(tar_root().len() as int)
                =~= tar_root());
            assert((tar_root() + entries_view(out@)[j].0).skip(tar_root().len() as int)
                =~= entries_view(out@)[j].0);
        }
        assert(all_wrapped_safe(entries_view(entries@)));
        assert forall|fs: Seq<(Seq<char>, Seq<u8>)>|
            all_entries_safe(fs) && untargz_of(bytes@) == Some(wrapped(fs)) implies entries_view(out@)
            =~= fs by {
            assert(entries_view(entries@) == wrapped(fs));
            assert forall|j: int| 0 <= j < fs.len() implies entries_view(out@)[j] == fs[j] by {
                assert(wrapped(fs)[j] == (tar_root() + fs[j].0, fs[j].1));
                assert(tar_root() + entries_view(out@)[j].0 == tar_root() + fs[j].0);
                assert((tar_root() + entries_view(out@)[j].0).skip(tar_root().len() as int)
                    =~= entries_view(out@)[j].0);
                assert((tar_root() + fs[j].0).skip(tar_root().len() as int) =~= fs[j].0);
            }
        }
    }
    Ok(out)
}

/// If some archive entry's path does not sit under the top-level name, the
/// archive is not the wrapping of any safe entry list.
proof fn lemma_outside_root_not_wrapped(
    bytes: Seq<u8>,
    entries: Seq<(Seq<char>, Seq<u8>)>,
    i: int,
)
    requires
        0 <= i < entries.len(),
        !(entries[i].0.len() >= tar_root().len() && entries[i].0.take(tar_root().len() as int)
            == tar_root()),
        untargz_of(bytes) == Some(entries),
    ensures
        forall|fs: Seq<(Seq<char>, Seq<u8>)>|
            !(all_entries_safe(fs) && untargz_of(bytes) == Some(wrapped(fs))),
{
    assert forall|fs: Seq<(Seq<char>, Seq<u8>)>|
        !(all_entries_safe(fs) && untargz_of(bytes) == Some(wrapped(fs))) by {
        if all_entries_safe(fs) && untargz_of(bytes) == Some(wrapped(fs)) {
            assert(entries == wrapped(fs));
            assert(entries[i] == (tar_root() + fs[i].0, fs[i].1));
            assert((tar_root() + fs[i].0).take(tar_root().len() as int) =~= tar_root());
        }
    }
}

/// If some archive entry's stripped path is unsafe, the archive is not the
/// wrapping of any safe entry list.
proof fn lemma_unsafe_rest_not_wrapped(
    bytes: Seq<u8>,
    entries: Seq<(Seq<char>, Seq<u8>)>,
    i: int,
    rest: Seq<char>,
)
    requires
        0 <= i < entries.len(),
        entries[i].0 == tar_root() + rest,
        !safe_rel_path(rest),
        untargz_of(bytes) == Some(entries),
    ensures
        forall|fs: Seq<(Seq<char>, Seq<u8>)>|
            !(all_entries_safe(fs) && untargz_of(bytes) == Some(wrapped(fs))),
{
    assert forall|fs: Seq<(Seq<char>, Seq<u8>)>|
        !(all_entries_safe(fs) && untargz_of(bytes) == Some(wrapped(fs))) by {
        if all_entries_safe(fs) && untargz_of(bytes) == Some(wrapped(fs)) {
            assert(entries == wrapped(fs));
            assert(entries[i] == (tar_root() + fs[i].0, fs[i].1));
            assert((tar_root() + fs[i].0).skip(tar_root().len() as int) =~= fs[i].0);
            assert((tar_root() + rest).skip(tar_root().len() as int) =~= rest);
            assert(rest == fs[i].0);
            assert(safe_rel_path(fs[i].0));
        }
    }
}

} // verus!
