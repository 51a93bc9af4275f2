//! Archive formats: detection from the file name and leading bytes, and
//! decoding of an archive held in memory into the entries to write out.

use vstd::prelude::*;
use crate::lines::{split_on, split_chars, char_views};
use crate::text::{chars_of, string_of, chars_equal, contains_chars, contains_seq, slice_chars, last_of,
    find_last};

verus! {

/// The archive kinds that can be extracted.
#[derive(Copy, Clone, Debug, PartialEq, Eq, Structural)]
pub enum ArchiveFormat {
    Zip,
    Gz,
    Tar,
    Bz2,
    Xz,
    SevenZ,
    TarGz,
}

/// The format named by a file extension.
pub open spec fn format_of_extension(ext: Seq<char>) -> Option<ArchiveFormat> {
    if ext == "zip"@ {
        Some(ArchiveFormat::Zip)
    } else if ext == "gz"@ {
        Some(ArchiveFormat::Gz)
    } else if ext == "tar"@ {
        Some(ArchiveFormat::Tar)
    } else if ext == "bz2"@ {
        Some(ArchiveFormat::Bz2)
    } else if ext == "xz"@ {
        Some(ArchiveFormat::Xz)
    } else if ext == "7z"@ {
        Some(ArchiveFormat::SevenZ)
    } else {
        None
    }
}

/// The format whose magic number starts a file; `h` is its first six bytes
/// (fewer when the file is shorter, and then nothing is recognised).
pub open spec fn format_of_magic(h: Seq<u8>) -> Option<ArchiveFormat> {
    if h.len() < 6 {
        None
    } else if h[0] == 0x50 && h[1] == 0x4b && h[2] == 0x03 && h[3] == 0x04 {
        Some(ArchiveFormat::Zip)
    } else if h[0] == 0x1f && h[1] == 0x8b {
        Some(ArchiveFormat::Gz)
    } else if h[0] == 0x42 && h[1] == 0x5a && h[2] == 0x68 {
        Some(ArchiveFormat::Bz2)
    } else if h[0] == 0xfd && h[1] == 0x37 && h[2] == 0x7a && h[3] == 0x58 && h[4] == 0x5a && h[5]
        == 0x00 {
        Some(ArchiveFormat::Xz)
    } else if h[0] == 0x37 && h[1] == 0x7a && h[2] == 0xbc && h[3] == 0xaf && h[4] == 0x27 && h[5]
        == 0x1c {
        Some(ArchiveFormat::SevenZ)
    } else {
        None
    }
}

/// The extension of a file name: what follows its last dot, unless that dot
/// is the name's first character.
pub open spec fn extension_of(name: Seq<char>) -> Option<Seq<char>> {
    match last_of(name, '.') {
        Some(k) => if k > 0 { Some(name.skip(k + 1)) } else { None },
        None => None,
    }
}

/// A file name without its extension.
pub open spec fn stem_of(name: Seq<char>) -> Seq<char> {
    match last_of(name, '.') {
        Some(k) => if k > 0 { name.take(k) } else { name },
        None => name,
    }
}

/// The format of a file: a name holding `.tar.gz` is a gzip-compressed tar;
/// else a name with an extension goes by the extension table; else the
/// leading bytes decide.
pub open spec fn detected_format(name: Seq<char>, data: Seq<u8>) -> Option<ArchiveFormat> {
    if contains_seq(name, ".tar.gz"@) {
        Some(ArchiveFormat::TarGz)
    } else {
        match extension_of(name) {
            Some(ext) => format_of_extension(ext),
            None => format_of_magic(if data.len() < 6 { data } else { data.take(6) }),
        }
    }
}

/// The format named by an extension (exec form of `format_of_extension`).
fn extension_format(ext: &Vec<char>) -> (r: Option<ArchiveFormat>)
    ensures
        r == format_of_extension(ext@),
{
    if chars_equal(ext, &chars_of("zip")) {
        Some(ArchiveFormat::Zip)
    } else if chars_equal(ext, &chars_of("gz")) {
        Some(ArchiveFormat::Gz)
    } else if chars_equal(ext, &chars_of("tar")) {
        Some(ArchiveFormat::Tar)
    } else if chars_equal(ext, &chars_of("bz2")) {
        Some(ArchiveFormat::Bz2)
    } else if chars_equal(ext, &chars_of("xz")) {
        Some(ArchiveFormat::Xz)
    } else if chars_equal(ext, &chars_of("7z")) {
        Some(ArchiveFormat::SevenZ)
    } else {
        None
    }
}

/// The format that a file's leading bytes announce.
pub fn magic_format(data: &[u8]) -> (r: Option<ArchiveFormat>)
    ensures
        r == format_of_magic(if data@.len() < 6 { data@ } else { data@.take(6) }),
{
    if data.len() < 6 {
        return None;
    }
    let h = data;
    if h[0] == 0x50 && h[1] == 0x4b && h[2] == 0x03 && h[3] == 0x04 {
        Some(ArchiveFormat::Zip)
    } else if h[0] == 0x1f && h[1] == 0x8b {
        Some(ArchiveFormat::Gz)
    } else if h[0] == 0x42 && h[1] == 0x5a && h[2] == 0x68 {
        Some(ArchiveFormat::Bz2)
    } else if h[0] == 0xfd && h[1] == 0x37 && h[2] == 0x7a && h[3] == 0x58 && h[4] == 0x5a && h[5]
        == 0x00 {
        Some(ArchiveFormat::Xz)
    } else if h[0] == 0x37 && h[1] == 0x7a && h[2] == 0xbc && h[3] == 0xaf && h[4] == 0x27 && h[5]
        == 0x1c {
        Some(ArchiveFormat::SevenZ)
    } else {
        None
    }
}

/// The format of the file called `file_name` whose contents start with
/// `data`; `None` when it cannot be determined or is not supported.
pub fn detect_format(file_name: &str, data: &[u8]) -> (r: Option<ArchiveFormat>)
    ensures
        r == detected_format(file_name@, data@),
{
    let name = chars_of(file_name);
    if contains_chars(&name, &chars_of(".tar.gz")) {
        return Some(ArchiveFormat::TarGz);
    }
    match find_last(&name, '.') {
        Some(k) => {
            if k > 0 {
                let ext = slice_chars(&name, k + 1, name.len());
                assert(ext@ =~= name@.skip(k + 1));
                extension_format(&ext)
            } else {
                magic_format(data)
            }
        },
        None => magic_format(data),
    }
}

/// The name of the file that a single-stream archive decompresses to: the
/// archive's name without its extension.
pub fn stem_name(file_name: &str) -> (r: String)
    ensures
        r@ == stem_of(file_name@),
{
    let name = chars_of(file_name);
    match find_last(&name, '.') {
        Some(k) => {
            if k > 0 {
                let s = slice_chars(&name, 0, k);
                assert(s@ =~= name@.take(k as int));
                string_of(s.as_slice())
            } else {
                string_of(name.as_slice())
            }
        },
        None => string_of(name.as_slice()),
    }
}

/// One entry of a multi-entry archive: its relative path, whether it is a
/// directory, its Unix permission bits when the archive records them, and
/// its bytes.
pub struct ArchiveEntry {
    pub path: String,
    pub is_dir: bool,
    pub mode: Option<u32>,
    pub data: Vec<u8>,
}

impl ArchiveEntry {
    pub open spec fn model(&self) -> (Seq<char>, bool, Option<u32>, Seq<u8>) {
        (self.path@, self.is_dir, self.mode, self.data@)
    }
}

/// The models of a list of entries.
pub open spec fn entry_models(v: Seq<ArchiveEntry>) -> Seq<(Seq<char>, bool, Option<u32>, Seq<u8>)> {
    v.map_values(|e: ArchiveEntry| e.model())
}

/// The bytes that gzip data decodes to; `None` when it is not valid gzip.
pub uninterp spec fn gunzip_of(data: Seq<u8>) -> Option<Seq<u8>>;

/// The bytes that bzip2 data decodes to; `None` when it is not valid bzip2.
pub uninterp spec fn bunzip2_of(data: Seq<u8>) -> Option<Seq<u8>>;

/// The bytes that xz data decodes to; `None` when it is not valid xz.
pub uninterp spec fn unxz_of(data: Seq<u8>) -> Option<Seq<u8>>;

/// The entries of a tar archive, in archive order; `None` when it cannot be read.
pub uninterp spec fn tar_listing(data: Seq<u8>) -> Option<Seq<(Seq<char>, bool, Option<u32>, Seq<u8>)>>;

/// The entries of a zip archive, by index; `None` when it cannot be read.
pub uninterp spec fn zip_listing(data: Seq<u8>) -> Option<Seq<(Seq<char>, bool, Option<u32>, Seq<u8>)>>;

/// Relies on `flate2::read::GzDecoder` read to the end: the decoded bytes,
/// or `None` when `data` is not valid gzip.
#[verifier::external_body]
fn gunzip(data: &[u8]) -> (r: Option<Vec<u8>>)
    ensures
        match r {
            Some(v) => gunzip_of(data@) == Some(v@),
            None => gunzip_of(data@) is None,
        },
{
    let mut out = Vec::new();
    std::io::Read::read_to_end(&mut flate2::read::GzDecoder::new(data), &mut out).ok()?;
    Some(out)
}

/// Relies on `bzip2::read::BzDecoder` read to the end: the decoded bytes,
/// or `None` when `data` is not valid bzip2.
#[verifier::external_body]
fn bunzip2(data: &[u8]) -> (r: Option<Vec<u8>>)
    ensures
        match r {
            Some(v) => bunzip2_of(data@) == Some(v@),
            None => bunzip2_of(data@) is None,
        },
{
    let mut out = Vec::new();
    std::io::Read::read_to_end(&mut bzip2::read::BzDecoder::new(data), &mut out).ok()?;
    Some(out)
}

/// Relies on `xz2::read::XzDecoder` read to the end: the decoded bytes, or
/// `None` when `data` is not valid xz.
#[verifier::external_body]
fn unxz(data: &[u8]) -> (r: Option<Vec<u8>>)
    ensures
        match r {
            Some(v) => unxz_of(data@) == Some(v@),
            None => unxz_of(data@) is None,
        },
{
    let mut out = Vec::new();
    std::io::Read::read_to_end(&mut xz2::read::XzDecoder::new(data), &mut out).ok()?;
    Some(out)
}

/// Relies on `tar::Archive::entries`: each entry's path, directory flag,
/// mode and contents, in archive order; `None` when the archive or an entry
/// cannot be read.
#[verifier::external_body]
fn read_tar(data: &[u8]) -> (r: Option<Vec<ArchiveEntry>>)
    ensures
        match r {
            Some(v) => tar_listing(data@) == Some(entry_models(v@)),
            None => tar_listing(data@) is None,
        },
{
    let mut out = Vec::new();
    for e in tar::Archive::new(data).entries().ok()? {
        let mut e = e.ok()?;
        let path = e.path().ok()?.to_string_lossy().into_owned();
        let (is_dir, mode) = (e.header().entry_type().is_dir(), e.header().mode().ok());
        let mut bytes = Vec::new();
        std::io::Read::read_to_end(&mut e, &mut bytes).ok()?;
        out.push(ArchiveEntry { path, is_dir, mode, data: bytes });
    }
    Some(out)
}

/// Relies on `zip::ZipArchive::by_index`: each entry's sanitised path
/// (`mangled_name`), directory flag, Unix mode and contents, by index; `None`
/// when the archive or an entry cannot be read.
#[verifier::external_body]
fn read_zip(data: &[u8]) -> (r: Option<Vec<ArchiveEntry>>)
    ensures
        match r {
            Some(v) => zip_listing(data@) == Some(entry_models(v@)),
            None => zip_listing(data@) is None,
        },
{
    let mut archive = zip::ZipArchive::new(std::io::Cursor::new(data)).ok()?;
    let mut out = Vec::new();
    for i in 0..archive.len() {
        let mut f = archive.by_index(i).ok()?;
        let (path, is_dir, mode) = (f.mangled_name().to_string_lossy().into_owned(), f.is_dir(), f.unix_mode());
        let mut bytes = Vec::new();
        std::io::Read::read_to_end(&mut f, &mut bytes).ok()?;
        out.push(ArchiveEntry { path, is_dir, mode, data: bytes });
    }
    Some(out)
}

/// Why an archive could not be extracted.
#[derive(Copy, Clone, Debug, PartialEq, Eq, Structural)]
pub enum ExtractError {
    /// The format could not be determined or is not supported.
    UnsupportedFormat,
    /// The archive could not be decoded.
    Corrupt,
    /// A tar entry has an empty path.
    EmptyEntryPath,
    /// A tar entry's path is absolute or climbs out with `..`.
    UnsafeEntryPath,
}

/// What extracting an archive yields.
pub enum Extraction {
    /// Entries to create under the output directory, in order.
    Entries(Vec<ArchiveEntry>),
    /// One decompressed file, with its name.
    Single { name: String, data: Vec<u8> },
    /// A 7z archive, which is unpacked whole by its own decompressor.
    SevenZ,
    /// A plain tar archive, which is unpacked whole with tar's own rules
    /// (links, permissions, paths kept inside the output directory).
    Tar,
}

/// The spec model of an `Extraction`.
pub enum Unpacked {
    Entries(Seq<(Seq<char>, bool, Option<u32>, Seq<u8>)>),
    Single(Seq<char>, Seq<u8>),
    SevenZ,
    Tar,
}

impl Extraction {
    pub open spec fn model(&self) -> Unpacked {
        match self {
            Extraction::Entries(v) => Unpacked::Entries(entry_models(v@)),
            Extraction::Single { name, data } => Unpacked::Single(name@, data@),
            Extraction::SevenZ => Unpacked::SevenZ,
            Extraction::Tar => Unpacked::Tar,
        }
    }
}

/// The model of an extraction result.
pub open spec fn result_model(r: Result<Extraction, ExtractError>) -> Result<Unpacked, ExtractError> {
    match r {
        Ok(x) => Ok(x.model()),
        Err(e) => Err(e),
    }
}

/// Whether some entry has an empty path.
pub open spec fn has_empty_path(l: Seq<(Seq<char>, bool, Option<u32>, Seq<u8>)>) -> bool {
    exists|i: int| 0 <= i < l.len() && (#[trigger] l[i]).0.len() == 0
}

/// Whether walking the path components `comps`, starting `depth` levels
/// below the output directory, ever climbs above it: `..` goes up a level,
/// an empty component or `.` stays, any other name goes down one.
pub open spec fn climbs_from(comps: Seq<Seq<char>>, depth: nat) -> bool
    decreases comps.len(),
{
    if comps.len() == 0 {
        false
    } else if comps[0] == ".."@ {
        if depth == 0 {
            true
        } else {
            climbs_from(comps.skip(1), (depth - 1) as nat)
        }
    } else if comps[0].len() == 0 || comps[0] == "."@ {
        climbs_from(comps.skip(1), depth)
    } else {
        climbs_from(comps.skip(1), depth + 1)
    }
}

/// Whether an entry path would land outside the output directory: it is
/// absolute, or its `..` components climb above the directory.
pub open spec fn escapes(p: Seq<char>) -> bool {
    (p.len() > 0 && p[0] == '/') || climbs_from(split_on(p, '/'), 0)
}

/// Whether some entry's path would land outside the output directory.
pub open spec fn has_escaping_path(l: Seq<(Seq<char>, bool, Option<u32>, Seq<u8>)>) -> bool {
    exists|i: int| 0 <= i < l.len() && escapes((#[trigger] l[i]).0)
}

/// Whether `path` would land outside the output directory.
pub fn escaping_path(path: &str) -> (r: bool)
    ensures
        r == escapes(path@),
{
    let p = chars_of(path);
    if p.len() > 0 && p[0] == '/' {
        return true;
    }
    let parts = split_chars(&p, '/');
    let up = chars_of("..");
    let here = chars_of(".");
    let mut depth: usize = 0;
    let mut k: usize = 0;
    assert(char_views(parts@).skip(0) =~= char_views(parts@));
    while k < parts.len()
        invariant
            k <= parts.len(),
            depth <= k,
            up@ == ".."@,
            here@ == "."@,
            p@ == path@,
            !(p@.len() > 0 && p@[0] == '/'),
            char_views(parts@) == split_on(p@, '/'),
            climbs_from(split_on(p@, '/'), 0) == climbs_from(
                char_views(parts@).skip(k as int),
                depth as nat,
            ),
        decreases parts.len() - k,
    {
        let ghost rest = char_views(parts@).skip(k as int);
        assert(rest[0] == parts@[k as int]@);
        assert(rest.skip(1) =~= char_views(parts@).skip(k + 1));
        if chars_equal(&parts[k], &up) {
            if depth == 0 {
                return true;
            }
            depth -= 1;
        } else if parts[k].len() == 0 || chars_equal(&parts[k], &here) {
        } else {
            depth += 1;
        }
        k += 1;
    }
    assert(char_views(parts@).skip(k as int) =~= Seq::<Seq<char>>::empty());
    false
}

/// The result of unpacking a tar listing.
pub open spec fn tar_result(l: Option<Seq<(Seq<char>, bool, Option<u32>, Seq<u8>)>>) -> Result<
    Unpacked,
    ExtractError,
> {
    match l {
        Some(l) => if has_empty_path(l) {
            Err(ExtractError::EmptyEntryPath)
        } else if has_escaping_path(l) {
            Err(ExtractError::UnsafeEntryPath)
        } else {
            Ok(Unpacked::Entries(l))
        },
        None => Err(ExtractError::Corrupt),
    }
}

/// The result of a single-stream decompression.
pub open spec fn single_result(name: Seq<char>, decoded: Option<Seq<u8>>) -> Result<
    Unpacked,
    ExtractError,
> {
    match decoded {
        Some(b) => Ok(Unpacked::Single(stem_of(name), b)),
        None => Err(ExtractError::Corrupt),
    }
}

/// What extracting the archive called `name` holding `data` yields.
pub open spec fn unpacked(name: Seq<char>, data: Seq<u8>) -> Result<Unpacked, ExtractError> {
    match detected_format(name, data) {
        None => Err(ExtractError::UnsupportedFormat),
        Some(ArchiveFormat::Zip) => match zip_listing(data) {
            Some(l) => Ok(Unpacked::Entries(l)),
            None => Err(ExtractError::Corrupt),
        },
        Some(ArchiveFormat::Gz) => single_result(name, gunzip_of(data)),
        Some(ArchiveFormat::Bz2) => single_result(name, bunzip2_of(data)),
        Some(ArchiveFormat::Xz) => single_result(name, unxz_of(data)),
        Some(ArchiveFormat::Tar) => Ok(Unpacked::Tar),
        Some(ArchiveFormat::TarGz) => match gunzip_of(data) {
            Some(t) => tar_result(tar_listing(t)),
            None => Err(ExtractError::Corrupt),
        },
        Some(ArchiveFormat::SevenZ) => Ok(Unpacked::SevenZ),
    }
}

/// Accepts the entries read from a tar archive, refusing the archive when an
/// entry has an empty path, or else when an entry's path would land outside
/// the output directory.
pub fn accept_tar_entries(entries: Option<Vec<ArchiveEntry>>) -> (r: Result<Extraction, ExtractError>)
    ensures
        result_model(r) == tar_result(
            match entries {
                Some(v) => Some(entry_models(v@)),
                None => None,
            },
        ),
{
    let ghost given = entries;
    match entries {
        None => Err(ExtractError::Corrupt),
        Some(v) => {
            assert(given == Some(v));
            let mut i: usize = 0;
            while i < v.len()
                invariant
                    given == entries,
                    given == Some(v),
                    i <= v.len(),
                    forall|j: int| 0 <= j < i ==> (#[trigger] entry_models(v@)[j]).0.len() != 0,
                decreases v.len() - i,
            {
                if v[i].path.as_str().is_empty() {
                    assert(entry_models(v@)[i as int] == v@[i as int].model());
                    assert(entry_models(v@)[i as int].0.len() == 0);
                    assert(has_empty_path(entry_models(v@)));
                    return Err(ExtractError::EmptyEntryPath);
                }
                i += 1;
            }
            assert(!has_empty_path(entry_models(v@)));
            let mut k: usize = 0;
            while k < v.len()
                invariant
                    given == entries,
                    given == Some(v),
                    !has_empty_path(entry_models(v@)),
                    k <= v.len(),
                    forall|j: int| 0 <= j < k ==> !escapes((#[trigger] entry_models(v@)[j]).0),
                decreases v.len() - k,
            {
                assert(entry_models(v@)[k as int] == v@[k as int].model());
                if escaping_path(v[k].path.as_str()) {
                    assert(has_escaping_path(entry_models(v@)));
                    return Err(ExtractError::UnsafeEntryPath);
                }
                k += 1;
            }
            assert(!has_escaping_path(entry_models(v@)));
            Ok(Extraction::Entries(v))
        },
    }
}

/// Names the output of a single-stream decompression of the archive called
/// `file_name` after the archive without its extension.
pub fn accept_single(file_name: &str, decoded: Option<Vec<u8>>) -> (r: Result<Extraction, ExtractError>)
    ensures
        result_model(r) == single_result(
            file_name@,
            match decoded {
                Some(v) => Some(v@),
                None => None,
            },
        ),
{
    match decoded {
        Some(b) => Ok(Extraction::Single { name: stem_name(file_name), data: b }),
        None => Err(ExtractError::Corrupt),
    }
}

/// Extracts the archive called `file_name` whose bytes are `data`: the
/// format is detected, the archive decoded, and what is to be written out is
/// returned. Nothing is written and `data` is left as it was.
pub fn extract(file_name: &str, data: &[u8]) -> (r: Result<Extraction, ExtractError>)
    ensures
        result_model(r) == unpacked(file_name@, data@),
{
    match detect_format(file_name, data) {
        None => Err(ExtractError::UnsupportedFormat),
        Some(ArchiveFormat::Zip) => match read_zip(data) {
            Some(v) => Ok(Extraction::Entries(v)),
            None => Err(ExtractError::Corrupt),
        },
        Some(ArchiveFormat::Gz) => accept_single(file_name, gunzip(data)),
        Some(ArchiveFormat::Bz2) => accept_single(file_name, bunzip2(data)),
        Some(ArchiveFormat::Xz) => accept_single(file_name, unxz(data)),
        Some(ArchiveFormat::Tar) => Ok(Extraction::Tar),
        Some(ArchiveFormat::TarGz) => match gunzip(data) {
            Some(t) => accept_tar_entries(read_tar(t.as_slice())),
            None => Err(ExtractError::Corrupt),
        },
        Some(ArchiveFormat::SevenZ) => Ok(Extraction::SevenZ),
    }
}

} // verus!
