//! Taking the ffmpeg program out of a downloaded archive: a zip archive, or
//! a tar archive read through a gzip decoder.
use std::io::Read;
use vstd::prelude::*;
use crate::setup::{is_ffmpeg_tar_entry, is_ffmpeg_zip_entry, ArchiveKind, is_ffmpeg_tar_entry_exec, is_ffmpeg_zip_entry_exec};

verus! {

/// What `zip::ZipArchive::new` followed by `len` gives for `archive`: the
/// number of members, or the text of the error.
pub uninterp spec fn zip_entry_count(archive: Seq<u8>) -> Result<usize, Seq<char>>;

/// What `ZipArchive::by_index(index)` followed by `name` gives for
/// `archive`: the member's name, or the text of the error.
pub uninterp spec fn zip_entry_name(archive: Seq<u8>, index: usize) -> Result<Seq<char>, Seq<char>>;

/// What `ZipArchive::by_index(index)` followed by `read_to_end` gives for
/// `archive`: the member's contents, or the text of the error.
pub uninterp spec fn zip_entry_data(archive: Seq<u8>, index: usize) -> Result<Seq<u8>, Seq<char>>;

/// The members that `tar::Archive::entries` yields for `archive` read
/// through `flate2::read::GzDecoder`, up to the first that cannot be read:
/// each member's path, lossily as text, or `None` where its path cannot be
/// read.
pub uninterp spec fn tar_gz_paths(archive: Seq<u8>) -> Seq<Option<Seq<char>>>;

/// The contents of the member at `index` among those of [`tar_gz_paths`],
/// or the text of the error.
pub uninterp spec fn tar_gz_data(archive: Seq<u8>, index: usize) -> Result<Seq<u8>, Seq<char>>;

/// Trusted: opens `archive` with `zip::ZipArchive::new` and returns `len`,
/// or the error's text. The contract names the outcome
/// `zip_entry_count(archive@)`.
#[verifier::external_body]
fn zip_count(archive: &[u8]) -> (r: Result<usize, String>)
    ensures
        match r {
            Ok(n) => zip_entry_count(archive@) == Ok::<usize, Seq<char>>(n),
            Err(e) => zip_entry_count(archive@) == Err::<usize, Seq<char>>(e@),
        },
{
    match zip::ZipArchive::new(std::io::Cursor::new(archive)) {
        Ok(a) => Ok(a.len()),
        Err(e) => Err(e.to_string()),
    }
}

/// Trusted: opens `archive` with `zip::ZipArchive::new`, then the member
/// `index` with `by_index`, and returns its `name`, or the error's text. The
/// contract names the outcome `zip_entry_name(archive@, index)`.
#[verifier::external_body]
fn zip_name(archive: &[u8], index: usize) -> (r: Result<String, String>)
    ensures
        match r {
            Ok(s) => zip_entry_name(archive@, index) == Ok::<Seq<char>, Seq<char>>(s@),
            Err(e) => zip_entry_name(archive@, index) == Err::<Seq<char>, Seq<char>>(e@),
        },
{
    let mut a = match zip::ZipArchive::new(std::io::Cursor::new(archive)) {
        Ok(a) => a,
        Err(e) => return Err(e.to_string()),
    };
    let name = match a.by_index(index) {
        Ok(f) => Ok(f.name().to_string()),
        Err(e) => Err(e.to_string()),
    };
    name
}

/// Trusted: opens `archive` with `zip::ZipArchive::new`, then the member
/// `index` with `by_index`, and reads it with `read_to_end`, or returns the
/// error's text. The contract names the outcome
/// `zip_entry_data(archive@, index)`.
#[verifier::external_body]
fn zip_data(archive: &[u8], index: usize) -> (r: Result<Vec<u8>, String>)
    ensures
        match r {
            Ok(b) => zip_entry_data(archive@, index) == Ok::<Seq<u8>, Seq<char>>(b@),
            Err(e) => zip_entry_data(archive@, index) == Err::<Seq<u8>, Seq<char>>(e@),
        },
{
    let mut a = match zip::ZipArchive::new(std::io::Cursor::new(archive)) {
        Ok(a) => a,
        Err(e) => return Err(e.to_string()),
    };
    let mut f = match a.by_index(index) {
        Ok(f) => f,
        Err(e) => return Err(e.to_string()),
    };
    let mut buf = Vec::new();
    let read = match f.read_to_end(&mut buf) {
        Ok(_) => Ok(buf),
        Err(e) => Err(e.to_string()),
    };
    read
}

/// The texts of optional strings.
pub open spec fn opt_texts(v: Seq<Option<String>>) -> Seq<Option<Seq<char>>> {
    v.map_values(
        |o: Option<String>|
            match o {
                Some(s) => Some(s@),
                None => None,
            },
    )
}

/// Trusted: reads `archive` with `tar::Archive::new` over
/// `flate2::read::GzDecoder::new`, and returns for each member that
/// `entries` yields, up to the first it cannot read, its `path` as text
/// (`to_string_lossy`), `None` where the path cannot be read. The contract
/// names the result `tar_gz_paths(archive@)`.
#[verifier::external_body]
fn tar_paths(archive: &[u8]) -> (r: Vec<Option<String>>)
    ensures
        opt_texts(r@) == tar_gz_paths(archive@),
{
    let mut a = tar::Archive::new(flate2::read::GzDecoder::new(archive));
    let mut out = Vec::new();
    if let Ok(entries) = a.entries() {
        for e in entries.flatten() {
            out.push(e.path().ok().map(|p| p.to_string_lossy().into_owned()));
        }
    }
    out
}

/// Trusted: reads `archive` as [`tar_paths`] does, and reads the member at
/// `index` of those with `read_to_end`, or returns the error's text. The
/// contract names the outcome `tar_gz_data(archive@, index)`.
#[verifier::external_body]
fn tar_data(archive: &[u8], index: usize) -> (r: Result<Vec<u8>, String>)
    ensures
        match r {
            Ok(b) => tar_gz_data(archive@, index) == Ok::<Seq<u8>, Seq<char>>(b@),
            Err(e) => tar_gz_data(archive@, index) == Err::<Seq<u8>, Seq<char>>(e@),
        },
{
    let mut a = tar::Archive::new(flate2::read::GzDecoder::new(archive));
    let mut e = match a.entries() {
        Ok(es) => match es.flatten().nth(index) {
            Some(e) => e,
            None => return Err(format!("no member {}", index)),
        },
        Err(x) => return Err(x.to_string()),
    };
    let mut buf = Vec::new();
    let read = match e.read_to_end(&mut buf) {
        Ok(_) => Ok(buf),
        Err(x) => Err(x.to_string()),
    };
    read
}

/// The ffmpeg program among the zip members from `i` on, out of `n`: the
/// members' names are read in order, and the first whose name is that of
/// ffmpeg is read; an error on the way ends the search with that error.
pub open spec fn zip_ffmpeg_from(archive: Seq<u8>, n: usize, i: int) -> Result<
    Option<Seq<u8>>,
    Seq<char>,
>
    decreases n - i,
{
    if i < 0 || i >= n {
        Ok(None)
    } else {
        match zip_entry_name(archive, i as usize) {
            Err(e) => Err(e),
            Ok(name) => if is_ffmpeg_zip_entry(name) {
                match zip_entry_data(archive, i as usize) {
                    Ok(b) => Ok(Some(b)),
                    Err(e) => Err(e),
                }
            } else {
                zip_ffmpeg_from(archive, n, i + 1)
            },
        }
    }
}

/// The position, from `i` on, of the first tar member whose path is that of
/// ffmpeg; members whose path cannot be read are passed over.
pub open spec fn tar_ffmpeg_from(paths: Seq<Option<Seq<char>>>, i: int) -> Option<int>
    decreases paths.len() - i,
{
    if i < 0 || i >= paths.len() {
        None
    } else {
        match paths[i] {
            Some(p) => if is_ffmpeg_tar_entry(p) {
                Some(i)
            } else {
                tar_ffmpeg_from(paths, i + 1)
            },
            None => tar_ffmpeg_from(paths, i + 1),
        }
    }
}

/// The contents of the ffmpeg program in `archive` of `kind`: `Ok(None)`
/// where no member is ffmpeg, or the text of the error that stopped the
/// reading.
pub open spec fn ffmpeg_in_archive(archive: Seq<u8>, kind: ArchiveKind) -> Result<
    Option<Seq<u8>>,
    Seq<char>,
> {
    match kind {
        ArchiveKind::Zip => match zip_entry_count(archive) {
            Err(e) => Err(e),
            Ok(n) => zip_ffmpeg_from(archive, n, 0),
        },
        ArchiveKind::TarGz => match tar_ffmpeg_from(tar_gz_paths(archive), 0) {
            None => Ok(None),
            Some(i) => match tar_gz_data(archive, i as usize) {
                Ok(b) => Ok(Some(b)),
                Err(e) => Err(e),
            },
        },
    }
}

/// The zip members from `k` up to `i` are named, none as ffmpeg.
pub open spec fn zip_names_pass(archive: Seq<u8>, k: usize, i: usize) -> bool {
    forall|j: usize|
        k <= j < i ==> (#[trigger] zip_entry_name(archive, j) matches Ok(name)
            && !is_ffmpeg_zip_entry(name))
}

/// Passing over members that are named but are not ffmpeg leaves the search
/// where it was.
proof fn lemma_zip_skip(archive: Seq<u8>, n: usize, k: usize, i: usize)
    requires
        k <= i <= n,
        zip_names_pass(archive, k, i),
    ensures
        zip_ffmpeg_from(archive, n, k as int) == zip_ffmpeg_from(archive, n, i as int),
    decreases i - k,
{
    if k < i {
        assert(zip_entry_name(archive, k) matches Ok(name) && !is_ffmpeg_zip_entry(name));
        lemma_zip_skip(archive, n, (k + 1) as usize, i);
    }
}

/// In a zip archive, the ffmpeg program is the member of lowest position
/// whose name is that of ffmpeg, where every member before it is named:
/// what is taken out is that member's contents, or the error met reading
/// them.
pub proof fn lemma_zip_first_ffmpeg_taken(archive: Seq<u8>, n: usize, i: usize)
    requires
        zip_entry_count(archive) == Ok::<usize, Seq<char>>(n),
        i < n,
        zip_names_pass(archive, 0, i),
        zip_entry_name(archive, i) matches Ok(name) && is_ffmpeg_zip_entry(name),
    ensures
        ffmpeg_in_archive(archive, ArchiveKind::Zip) == match zip_entry_data(archive, i) {
            Ok(b) => Ok::<Option<Seq<u8>>, Seq<char>>(Some(b)),
            Err(e) => Err(e),
        },
{
    lemma_zip_skip(archive, n, 0, i);
}

/// In a zip archive whose members are all named and none as ffmpeg, there is
/// no ffmpeg program to take out.
pub proof fn lemma_zip_without_ffmpeg(archive: Seq<u8>, n: usize)
    requires
        zip_entry_count(archive) == Ok::<usize, Seq<char>>(n),
        zip_names_pass(archive, 0, n),
    ensures
        ffmpeg_in_archive(archive, ArchiveKind::Zip) == Ok::<Option<Seq<u8>>, Seq<char>>(None),
{
    lemma_zip_skip(archive, n, 0, n);
}

/// In a zip archive, a member whose name cannot be read, with every member
/// before it named and none as ffmpeg, stops the search with that error.
pub proof fn lemma_zip_name_error_stops(archive: Seq<u8>, n: usize, i: usize, e: Seq<char>)
    requires
        zip_entry_count(archive) == Ok::<usize, Seq<char>>(n),
        i < n,
        zip_names_pass(archive, 0, i),
        zip_entry_name(archive, i) == Err::<Seq<char>, Seq<char>>(e),
    ensures
        ffmpeg_in_archive(archive, ArchiveKind::Zip) == Err::<Option<Seq<u8>>, Seq<char>>(e),
{
    lemma_zip_skip(archive, n, 0, i);
}

/// In a gzipped tar archive, the ffmpeg program is the member of lowest
/// position whose path is that of ffmpeg: what is taken out is that member's
/// contents, or the error met reading them.
pub proof fn lemma_tar_first_ffmpeg_taken(archive: Seq<u8>, i: int)
    requires
        0 <= i < tar_gz_paths(archive).len(),
        tar_gz_paths(archive)[i] matches Some(p) && is_ffmpeg_tar_entry(p),
        forall|j: int|
            0 <= j < i ==> !(#[trigger] tar_gz_paths(archive)[j] matches Some(p)
                && is_ffmpeg_tar_entry(p)),
    ensures
        ffmpeg_in_archive(archive, ArchiveKind::TarGz) == match tar_gz_data(archive, i as usize) {
            Ok(b) => Ok::<Option<Seq<u8>>, Seq<char>>(Some(b)),
            Err(e) => Err(e),
        },
{
    lemma_tar_skip(tar_gz_paths(archive), 0, i);
}

/// Passing over tar members whose path is not that of ffmpeg leaves the
/// search where it was.
proof fn lemma_tar_skip(paths: Seq<Option<Seq<char>>>, k: int, i: int)
    requires
        0 <= k <= i < paths.len(),
        forall|j: int| k <= j < i ==> !(#[trigger] paths[j] matches Some(p) && is_ffmpeg_tar_entry(p)),
        paths[i] matches Some(p) && is_ffmpeg_tar_entry(p),
    ensures
        tar_ffmpeg_from(paths, k) == Some(i),
    decreases i - k,
{
    if k < i {
        assert(!(paths[k] matches Some(p) && is_ffmpeg_tar_entry(p)));
        lemma_tar_skip(paths, k + 1, i);
    }
}

/// The mathematical content of what [`ffmpeg_from_archive`] returns.
pub open spec fn found_view(r: Result<Option<Vec<u8>>, String>) -> Result<
    Option<Seq<u8>>,
    Seq<char>,
> {
    match r {
        Ok(Some(b)) => Ok(Some(b@)),
        Ok(None) => Ok(None),
        Err(e) => Err(e@),
    }
}

fn zip_ffmpeg(archive: &[u8]) -> (r: Result<Option<Vec<u8>>, String>)
    ensures
        found_view(r) == ffmpeg_in_archive(archive@, ArchiveKind::Zip),
{
    let n = match zip_count(archive) {
        Ok(n) => n,
        Err(e) => return Err(e),
    };
    let mut i: usize = 0;
    while i < n
        invariant
            i <= n,
            zip_entry_count(archive@) == Ok::<usize, Seq<char>>(n),
            zip_ffmpeg_from(archive@, n, i as int) == ffmpeg_in_archive(
                archive@,
                ArchiveKind::Zip,
            ),
        decreases n - i,
    {
        let name = match zip_name(archive, i) {
            Ok(s) => s,
            Err(e) => return Err(e),
        };
        if is_ffmpeg_zip_entry_exec(name.as_str()) {
            return match zip_data(archive, i) {
                Ok(b) => Ok(Some(b)),
                Err(e) => Err(e),
            };
        }
        i = i + 1;
    }
    Ok(None)
}

fn tar_ffmpeg(archive: &[u8]) -> (r: Result<Option<Vec<u8>>, String>)
    ensures
        found_view(r) == ffmpeg_in_archive(archive@, ArchiveKind::TarGz),
{
    let paths = tar_paths(archive);
    let ghost ps = tar_gz_paths(archive@);
    let mut i: usize = 0;
    while i < paths.len()
        invariant
            i <= paths@.len(),
            opt_texts(paths@) == ps,
            ps == tar_gz_paths(archive@),
            tar_ffmpeg_from(ps, i as int) == tar_ffmpeg_from(ps, 0),
        decreases paths@.len() - i,
    {
        assert(ps[i as int] == match paths@[i as int] {
            Some(s) => Some(s@),
            None => None,
        });
        let hit = match &paths[i] {
            Some(p) => is_ffmpeg_tar_entry_exec(p.as_str()),
            None => false,
        };
        if hit {
            return match tar_data(archive, i) {
                Ok(b) => Ok(Some(b)),
                Err(e) => Err(e),
            };
        }
        i = i + 1;
    }
    Ok(None)
}

/// The contents of the ffmpeg program in the downloaded `archive` of
/// `kind`: for a zip archive, the first member, in order, whose name ends
/// with `ffmpeg` or `ffmpeg.exe`; for a gzipped tar archive, the first
/// member whose path ends with `ffmpeg`; `None` where there is none, and the
/// error's text where the archive or the chosen member cannot be read.
pub fn ffmpeg_from_archive(archive: &[u8], kind: ArchiveKind) -> (r: Result<
    Option<Vec<u8>>,
    String,
>)
    ensures
        found_view(r) == ffmpeg_in_archive(archive@, kind),
{
    match kind {
        ArchiveKind::Zip => zip_ffmpeg(archive),
        ArchiveKind::TarGz => tar_ffmpeg(archive),
    }
}

} // verus!
