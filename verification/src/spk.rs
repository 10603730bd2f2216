//! The package and container decoders, and the resulting read-only archive
//! index.
//!
//! A container is one header plus `chunk_count` packages. Each package is
//! decoded in strict order — envelope, metadata, optional auxiliary record,
//! string table, file entries up to the terminator, data-segment header —
//! and the cursor is then re-synchronized to the envelope-declared span, so
//! that undocumented padding inside a package region is tolerated.

use vstd::prelude::*;
use vstd::utf8::{decode_utf8, valid_utf8};

use crate::chunks;
use crate::chunks::PackageType;
use crate::stream::{find_nul, Stream};

verus! {

/// The keyed-digest secret carried by the format; this crate passes digests
/// through unverified, for downstream consumers to check.
pub const HMAC_KEY: [u8; 16] = [
    0x8e,
    0x1f,
    0x55,
    0x43,
    0xc2,
    0xf5,
    0x4a,
    0x11,
    0x67,
    0x3a,
    0x28,
    0x2a,
    0x2f,
    0x87,
    0xc0,
    0x06,
];

/// Why a container failed to decode.
#[derive(Copy, Clone, Debug, PartialEq, Eq, Structural)]
pub enum OpenError {
    /// Structural decode failure: wrong tag, truncated record, terminator
    /// with a nonzero length field, or a malformed package envelope.
    Parse,
    /// A resolved name is not valid UTF-8.
    Utf8,
    /// The package name field holds no NUL terminator.
    MissingNul,
}

/// Why a file's contents could not be read from the archive.
#[derive(Copy, Clone, Debug, PartialEq, Eq, Structural)]
pub enum ReadError {
    /// The file's resolved byte range lies outside the underlying source.
    OutOfRange,
}

/// Relies on `String::from_utf8`: it returns `Ok` exactly on valid UTF-8
/// input and decodes it to the string of the same bytes; `vstd::utf8` is the
/// matching mathematical model of that encoding.
#[verifier::external_body]
fn utf8_to_string(v: Vec<u8>) -> (r: Option<String>)
    ensures
        r is Some <==> valid_utf8(v@),
        r matches Some(s) ==> s@ == decode_utf8(v@),
{
    match String::from_utf8(v) {
        Ok(s) => Some(s),
        Err(_) => None,
    }
}

/// One file's decoded metadata.
pub ghost struct SpecFileInfo {
    pub name: Seq<char>,
    pub size: u64,
    pub offset: u64,
    pub data_size: u64,
    pub hmac: Seq<u8>,
    pub md5: Seq<u8>,
    pub mode: u16,
}

/// One package's decoded metadata and file list.
pub ghost struct SpecPackage {
    pub name: Seq<char>,
    pub id: Seq<u8>,
    pub version: (u8, u8, u8),
    pub type_: PackageType,
    pub files: Seq<SpecFileInfo>,
}

/// One file of a package: its resolved name, declared size, stream-absolute
/// data offset, stored byte count, digests, and mode word. `offset` and
/// `data_size` are only meaningful once the owning package's data-segment
/// header has been processed; the decoder finalizes them before returning.
#[derive(Clone, Debug, PartialEq, Eq)]
pub struct FileInfo {
    pub name: String,
    pub size: u64,
    pub offset: u64,
    pub data_size: u64,
    pub hmac: Vec<u8>,
    pub md5: Vec<u8>,
    pub mode: u16,
}

impl View for FileInfo {
    type V = SpecFileInfo;

    open spec fn view(&self) -> SpecFileInfo {
        SpecFileInfo {
            name: self.name@,
            size: self.size,
            offset: self.offset,
            data_size: self.data_size,
            hmac: self.hmac@,
            md5: self.md5@,
            mode: self.mode,
        }
    }
}

/// The views of a sequence of file entries.
pub open spec fn views_of(files: Seq<FileInfo>) -> Seq<SpecFileInfo> {
    files.map_values(|f: FileInfo| f@)
}

/// A named, versioned, typed collection of file entries, constructed once
/// and fully during container decode, immutable thereafter.
pub struct Package {
    pub name: String,
    pub id: Vec<u8>,
    pub version: (u8, u8, u8),
    pub type_: PackageType,
    pub files: Vec<FileInfo>,
}

impl View for Package {
    type V = SpecPackage;

    open spec fn view(&self) -> SpecPackage {
        SpecPackage {
            name: self.name@,
            id: self.id@,
            version: self.version,
            type_: self.type_,
            files: views_of(self.files@),
        }
    }
}

/// The views of a sequence of packages.
pub open spec fn package_views(ps: Seq<Package>) -> Seq<SpecPackage> {
    ps.map_values(|p: Package| p@)
}

/// The file entry carried by a canonical wide record, its name decoded and
/// its data offset still relative to the data segment.
pub open spec fn spec_file_from_record(w: chunks::SpecFi64) -> SpecFileInfo {
    SpecFileInfo {
        name: decode_utf8(w.filename),
        size: w.file_size,
        offset: w.data_offset,
        data_size: w.data_size,
        hmac: w.data_hmac,
        md5: w.data_md5,
        mode: w.mode,
    }
}

/// Decode the file-entry list at `i` up to and including its terminator:
/// each record is normalized to the wide shape and its name must be valid
/// UTF-8; data offsets stay package-relative.
pub open spec fn spec_parse_files(s: Seq<u8>, i: int, base: int) -> Result<
    (Seq<SpecFileInfo>, int),
    OpenError,
>
    decreases s.len() - i when 0 <= i
{
    match chunks::spec_parse_record(s, i, base) {
        None => Err(OpenError::Parse),
        Some((m, j)) => match m {
            chunks::SpecRecord::Fend => Ok((Seq::empty(), j)),
            chunks::SpecRecord::Finf(f) => if i + 68 <= s.len() {
                if !valid_utf8(f.filename) {
                    Err(OpenError::Utf8)
                } else {
                    match spec_parse_files(s, i + 68, base) {
                        Err(e) => Err(e),
                        Ok((rest, end)) => Ok(
                            (seq![spec_file_from_record(chunks::spec_widen(f))] + rest, end),
                        ),
                    }
                }
            } else {
                Err(OpenError::Parse)
            },
            chunks::SpecRecord::Fi64(w) => if i + 88 <= s.len() {
                if !valid_utf8(w.filename) {
                    Err(OpenError::Utf8)
                } else {
                    match spec_parse_files(s, i + 88, base) {
                        Err(e) => Err(e),
                        Ok((rest, end)) => Ok((seq![spec_file_from_record(w)] + rest, end)),
                    }
                }
            } else {
                Err(OpenError::Parse)
            },
        },
    }
}

/// `f` with its data offset translated by `base`.
pub open spec fn spec_rebase(f: SpecFileInfo, base: int) -> SpecFileInfo {
    SpecFileInfo {
        name: f.name,
        size: f.size,
        offset: (f.offset + base) as u64,
        data_size: f.data_size,
        hmac: f.hmac,
        md5: f.md5,
        mode: f.mode,
    }
}

/// Translate package-relative data offsets into stream-absolute ones by
/// adding `base`, the data-segment header position plus its header size; a
/// sum that cannot be represented is a structural failure.
pub open spec fn spec_finalize(files: Seq<SpecFileInfo>, base: int) -> Result<
    Seq<SpecFileInfo>,
    OpenError,
> {
    if forall|k: int| 0 <= k < files.len() ==> (#[trigger] files[k]).offset + base <= u64::MAX {
        Ok(files.map_values(|f: SpecFileInfo| spec_rebase(f, base)))
    } else {
        Err(OpenError::Parse)
    }
}

/// Package name decoded from the fixed NUL-padded name field: the bytes up
/// to the first NUL, which must exist and be valid UTF-8.
pub open spec fn spec_package_name(field: Seq<u8>) -> Result<Seq<char>, OpenError> {
    match find_nul(field, 0) {
        None => Err(OpenError::MissingNul),
        Some(j) => if valid_utf8(field.subrange(0, j)) {
            Ok(decode_utf8(field.subrange(0, j)))
        } else {
            Err(OpenError::Utf8)
        },
    }
}

/// Package identifier trimmed at its first NUL: legacy archives leave the
/// field zero-filled, which yields the empty identifier, never a failure.
pub open spec fn spec_package_id(field: Seq<u8>) -> Seq<u8> {
    match find_nul(field, 0) {
        None => field,
        Some(j) => field.subrange(0, j),
    }
}

/// Decode one package at `i`: envelope, metadata, optional auxiliary record,
/// string table, file entries up to the terminator, and data-segment header;
/// then finalize file offsets against the data segment, decode the metadata
/// name, and compute the envelope-declared position of the next package,
/// which must be representable and must not lie before the end of the
/// decoded grammar.
#[verifier::opaque]
pub open spec fn spec_parse_package(s: Seq<u8>, i: int) -> Result<(SpecPackage, int), OpenError> {
    match chunks::spec_parse_spk0(s, i) {
        None => Err(OpenError::Parse),
        Some((env, j0)) => match chunks::spec_parse_sidx(s, j0) {
            None => Err(OpenError::Parse),
            Some((sidx, j1)) => {
                let j2 = match chunks::spec_parse_sz64(s, j1) {
                    Some((_, k)) => k,
                    None => j1,
                };
                match chunks::spec_parse_strs(s, j2) {
                    None => Err(OpenError::Parse),
                    Some((_, j3)) => match spec_parse_files(s, j3, j2 + 8) {
                        Err(e) => Err(e),
                        Ok((raw, j4)) => match chunks::spec_parse_sdat(s, j4) {
                            None => Err(OpenError::Parse),
                            Some((sd, j5)) => match spec_finalize(
                                raw,
                                j4 + sd.byte_len.spec_header_size(),
                            ) {
                                Err(e) => Err(e),
                                Ok(files) => match spec_package_name(sidx.package_name) {
                                    Err(e) => Err(e),
                                    Ok(nm) => {
                                        let target = i + env.spec_offset_to_next();
                                        if target > u64::MAX {
                                            Err(OpenError::Parse)
                                        } else if target < j5 {
                                            Err(OpenError::Parse)
                                        } else {
                                            Ok(
                                                (
                                                    SpecPackage {
                                                        name: nm,
                                                        id: spec_package_id(sidx.package_id),
                                                        version: (
                                                            sidx.major_version,
                                                            sidx.minor_version,
                                                            sidx.patch_version,
                                                        ),
                                                        type_: sidx.package_type,
                                                        files,
                                                    },
                                                    target,
                                                ),
                                            )
                                        }
                                    },
                                },
                            },
                        },
                    },
                }
            },
        },
    }
}

/// Decode `n` packages in sequence starting at `i`, re-synchronizing to each
/// envelope-declared span between packages.
pub open spec fn spec_parse_packages(s: Seq<u8>, i: int, n: nat) -> Result<
    Seq<SpecPackage>,
    OpenError,
>
    decreases n,
{
    if n == 0 {
        Ok(Seq::empty())
    } else {
        match spec_parse_package(s, i) {
            Err(e) => Err(e),
            Ok((p, t)) => match spec_parse_packages(s, t, (n - 1) as nat) {
                Err(e) => Err(e),
                Ok(rest) => Ok(seq![p] + rest),
            },
        }
    }
}

/// Decode a whole container: the header at offset 0, then its declared
/// number of packages.
pub open spec fn spec_parse_container(s: Seq<u8>) -> Result<Seq<SpecPackage>, OpenError> {
    match chunks::spec_parse_spks(s, 0) {
        None => Err(OpenError::Parse),
        Some((h, j)) => spec_parse_packages(s, j, h.chunk_count as nat),
    }
}

/// Offset finalization: with a data-segment header decoded at stream
/// position `p`, each finalized entry's absolute offset is `p + 8 + d` under
/// the legacy length form and `p + 16 + d` under the extended form, where
/// `d` is the entry's package-relative data offset.
pub proof fn lemma_offset_finalization(
    s: Seq<u8>,
    p: int,
    sd: chunks::SDAT,
    j: int,
    files: Seq<SpecFileInfo>,
    out: Seq<SpecFileInfo>,
)
    requires
        0 <= p,
        chunks::spec_parse_sdat(s, p) == Some((sd, j)),
        spec_finalize(files, p + sd.byte_len.spec_header_size()) == Ok::<
            Seq<SpecFileInfo>,
            OpenError,
        >(out),
    ensures
        out.len() == files.len(),
        forall|k: int|
            0 <= k < files.len() ==> (#[trigger] out[k]).offset == p + (if sd.byte_len is Legacy {
                8int
            } else {
                16int
            }) + files[k].offset,
{
    assert forall|k: int| 0 <= k < files.len() implies (#[trigger] out[k]).offset == p + (
    if sd.byte_len is Legacy {
        8int
    } else {
        16int
    }) + files[k].offset by {
        let base = p + sd.byte_len.spec_header_size();
        assert(out == files.map_values(|f: SpecFileInfo| spec_rebase(f, base)));
        assert(out[k] == spec_rebase(files[k], base));
        assert(files[k].offset + base <= u64::MAX);
    }
}

/// Index of the first NUL byte of `v`, if any.
fn find_nul_vec(v: &Vec<u8>) -> (r: Option<usize>)
    ensures
        match find_nul(v@, 0) {
            Some(j) => r matches Some(k) && k as int == j,
            None => r is None,
        },
{
    let mut k: usize = 0;
    while k < v.len()
        invariant
            k <= v@.len(),
            find_nul(v@, 0) == find_nul(v@, k as int),
        decreases v@.len() - k,
    {
        if v[k] == 0 {
            return Some(k);
        }
        k = k + 1;
    }
    assert(find_nul(v@, k as int) is None);
    None
}

/// `find_nul` returns an in-range position holding a NUL byte.
proof fn lemma_find_nul_some(s: Seq<u8>, i: int)
    requires
        0 <= i,
    ensures
        match find_nul(s, i) {
            Some(j) => i <= j < s.len() && s[j] == 0,
            None => true,
        },
    decreases s.len() - i,
{
    if i < s.len() && s[i] != 0 {
        lemma_find_nul_some(s, i + 1);
    }
}

/// Decode the NUL-padded package name field: bytes up to the first NUL,
/// which must exist and be valid UTF-8.
fn package_name_from(field: &Vec<u8>) -> (r: Result<String, OpenError>)
    ensures
        match spec_package_name(field@) {
            Ok(nm) => r matches Ok(s) && s@ == nm,
            Err(e) => r matches Err(e2) && e2 == e,
        },
{
    let j = match find_nul_vec(field) {
        Some(j) => j,
        None => {
            return Err(OpenError::MissingNul);
        },
    };
    proof {
        lemma_find_nul_some(field@, 0);
    }
    let mut prefix: Vec<u8> = Vec::new();
    let mut k: usize = 0;
    while k < j
        invariant
            k <= j,
            j < field@.len(),
            prefix@ =~= field@.subrange(0, k as int),
        decreases j - k,
    {
        prefix.push(field[k]);
        k = k + 1;
    }
    assert(prefix@ =~= field@.subrange(0, j as int));
    match utf8_to_string(prefix) {
        Some(s) => Ok(s),
        None => Err(OpenError::Utf8),
    }
}

/// Trim the package identifier field at its first NUL; a zero-filled field
/// yields the empty identifier, never a failure.
fn package_id_from(field: &Vec<u8>) -> (r: Vec<u8>)
    ensures
        r@ == spec_package_id(field@),
{
    let j = match find_nul_vec(field) {
        Some(j) => j,
        None => {
            let mut whole: Vec<u8> = Vec::new();
            let mut k: usize = 0;
            while k < field.len()
                invariant
                    k <= field@.len(),
                    whole@ =~= field@.subrange(0, k as int),
                decreases field@.len() - k,
            {
                whole.push(field[k]);
                k = k + 1;
            }
            assert(whole@ =~= field@);
            return whole;
        },
    };
    proof {
        lemma_find_nul_some(field@, 0);
    }
    let mut prefix: Vec<u8> = Vec::new();
    let mut k: usize = 0;
    while k < j
        invariant
            k <= j,
            j < field@.len(),
            prefix@ =~= field@.subrange(0, k as int),
        decreases j - k,
    {
        prefix.push(field[k]);
        k = k + 1;
    }
    assert(prefix@ =~= field@.subrange(0, j as int));
    prefix
}

/// Read file-entry records and append them, normalized, to the package's
/// file list, until the terminator; names are resolved against the string
/// storage base `base` and decoded as UTF-8.
fn parse_files(s: &mut Stream, base: u64) -> (r: Result<Vec<FileInfo>, OpenError>)
    ensures
        final(s).data@ == old(s).data@,
        match spec_parse_files(old(s).data@, old(s).pos as int, base as int) {
            Ok(fj) => (r matches Ok(v) && views_of(v@) == fj.0) && final(s).pos == fj.1,
            Err(e) => r matches Err(e2) && e2 == e,
        },
{
    let ghost gd = s.data@;
    let ghost start = s.pos as int;
    let ghost gbase = base as int;
    let mut files: Vec<FileInfo> = Vec::new();
    loop
        invariant_except_break
            s.data@ == gd,
            gd == old(s).data@,
            0 <= start,
            start == old(s).pos as int,
            gbase == base as int,
            ({
                let whole = spec_parse_files(gd, start, gbase);
                match spec_parse_files(gd, s.pos as int, gbase) {
                    Ok(fj) => whole == Ok::<(Seq<SpecFileInfo>, int), OpenError>(
                        (views_of(files@) + fj.0, fj.1),
                    ),
                    Err(e) => whole == Err::<(Seq<SpecFileInfo>, int), OpenError>(e),
                }
            }),
        ensures
            s.data@ == gd,
            spec_parse_files(gd, start, gbase) == Ok::<(Seq<SpecFileInfo>, int), OpenError>(
                (views_of(files@), s.pos as int),
            ),
        decreases gd.len() - s.pos,
    {
        let ghost cur = s.pos as int;
        let rec = match chunks::parse_file_info(s, base) {
            Some(x) => x,
            None => {
                return Err(OpenError::Parse);
            },
        };
        let ghost gm = rec.view();
        match rec.normalize() {
            None => {
                proof {
                    assert(views_of(files@) + Seq::<SpecFileInfo>::empty() =~= views_of(files@));
                }
                break;
            },
            Some(w) => {
                let ghost gw = w.view();
                let chunks::FI64 {
                    byte_len: _,
                    filename,
                    file_size,
                    data_offset,
                    data_size,
                    mode,
                    data_hmac,
                    data_md5,
                } = w;
                let name = match utf8_to_string(filename) {
                    Some(n) => n,
                    None => {
                        return Err(OpenError::Utf8);
                    },
                };
                let fi = FileInfo {
                    name,
                    size: file_size,
                    offset: data_offset,
                    data_size,
                    hmac: data_hmac,
                    md5: data_md5,
                    mode,
                };
                proof {
                    assert(fi@ == spec_file_from_record(gw));
                    match gm {
                        chunks::SpecRecord::Finf(f) => {
                            assert(cur + 68 <= gd.len());
                            assert(gw == chunks::spec_widen(f));
                        },
                        chunks::SpecRecord::Fi64(ww) => {
                            assert(cur + 88 <= gd.len());
                        },
                        chunks::SpecRecord::Fend => {
                            assert(false);
                        },
                    }
                    assert(views_of(files@.push(fi)) =~= views_of(files@).push(fi@));
                    match spec_parse_files(gd, s.pos as int, gbase) {
                        Ok(fj) => {
                            assert(views_of(files@) + (seq![fi@] + fj.0) =~= views_of(
                                files@.push(fi),
                            ) + fj.0);
                        },
                        Err(e) => {},
                    }
                }
                files.push(fi);
            },
        }
    }
    Ok(files)
}

/// Translate every collected file entry's data offset into a stream-absolute
/// offset by adding `base`, the data-segment position plus its header size.
fn finalize_files(files: Vec<FileInfo>, base: u64) -> (r: Result<Vec<FileInfo>, OpenError>)
    ensures
        match spec_finalize(views_of(files@), base as int) {
            Ok(fs) => r matches Ok(v) && views_of(v@) == fs,
            Err(e) => r matches Err(e2) && e2 == e,
        },
{
    let ghost all = views_of(files@);
    let mut rest = files;
    let mut out: Vec<FileInfo> = Vec::new();
    while rest.len() > 0
        invariant
            all == views_of(files@),
            out@.len() + rest@.len() == all.len(),
            views_of(rest@) =~= all.skip(out@.len() as int),
            forall|k: int|
                0 <= k < out@.len() ==> (#[trigger] all[k]).offset + base <= u64::MAX
                    && views_of(out@)[k] == spec_rebase(all[k], base as int),
        decreases rest@.len(),
    {
        let ghost t = out@.len() as int;
        let ghost old_rest = rest@;
        let f = rest.remove(0);
        proof {
            assert(views_of(old_rest)[0] == all.skip(t)[0]);
            assert(f@ == all[t]);
            assert(views_of(rest@) =~= views_of(old_rest).drop_first());
            assert(views_of(rest@) =~= all.skip(t + 1));
        }
        if f.offset > u64::MAX - base {
            proof {
                assert(all[t].offset + base > u64::MAX);
            }
            return Err(OpenError::Parse);
        }
        let FileInfo { name, size, offset, data_size, hmac, md5, mode } = f;
        let nf = FileInfo { name, size, offset: offset + base, data_size, hmac, md5, mode };
        proof {
            assert(nf@ == spec_rebase(all[t], base as int));
            assert(views_of(out@.push(nf)) =~= views_of(out@).push(nf@));
        }
        out.push(nf);
    }
    proof {
        assert(out@.len() == all.len());
        assert(views_of(out@) =~= all.map_values(|f: SpecFileInfo| spec_rebase(f, base as int)));
    }
    Ok(out)
}

/// Decode one package with the cursor at its envelope, and leave the cursor
/// at the envelope-declared start of the next package.
#[verifier::rlimit(100)]
fn parse_package(s: &mut Stream) -> (r: Result<Package, OpenError>)
    ensures
        final(s).data@ == old(s).data@,
        match spec_parse_package(old(s).data@, old(s).pos as int) {
            Ok(pt) => (r matches Ok(p) && p@ == pt.0) && final(s).pos == pt.1,
            Err(e) => r matches Err(e2) && e2 == e,
        },
{
    proof {
        reveal(spec_parse_package);
    }
    let dlen = s.data.len();
    let pkg_start = s.pos;
    let env = match chunks::parse_spk0(s) {
        Some(x) => x,
        None => {
            return Err(OpenError::Parse);
        },
    };
    let sidx = match chunks::parse_sidx(s) {
        Some(x) => x,
        None => {
            return Err(OpenError::Parse);
        },
    };
    let _aux = chunks::probe_sz64(s);
    let strs_pos = s.pos;
    match chunks::parse_strs(s) {
        Some(_) => (),
        None => {
            return Err(OpenError::Parse);
        },
    };
    assert(strs_pos + 8 <= dlen as u64);
    let base = strs_pos + 8;
    let raw = match parse_files(s, base) {
        Ok(v) => v,
        Err(e) => {
            return Err(e);
        },
    };
    let sdat_pos = s.pos;
    let sdat = match chunks::parse_sdat(s) {
        Some(x) => x,
        None => {
            return Err(OpenError::Parse);
        },
    };
    assert(s.pos == sdat_pos + sdat.byte_len.spec_header_size());
    let data_base = sdat_pos + sdat.header_size();
    let files = match finalize_files(raw, data_base) {
        Ok(v) => v,
        Err(e) => {
            return Err(e);
        },
    };
    let name = match package_name_from(&sidx.package_name) {
        Ok(n) => n,
        Err(e) => {
            return Err(e);
        },
    };
    let id = package_id_from(&sidx.package_id);
    let package = Package {
        name,
        id,
        version: (sidx.major_version, sidx.minor_version, sidx.patch_version),
        type_: sidx.package_type,
        files,
    };
    let hs = env.byte_len.header_size();
    let bl = env.byte_len.byte_len();
    if bl > u64::MAX - hs {
        return Err(OpenError::Parse);
    }
    let off = hs + bl;
    if pkg_start > u64::MAX - off {
        return Err(OpenError::Parse);
    }
    let target = pkg_start + off;
    if target < s.pos {
        return Err(OpenError::Parse);
    }
    s.seek(target);
    Ok(package)
}

/// The decoded archive: the read-only package index plus the underlying byte
/// source, for later on-demand extraction of file contents.
pub struct SPKFile {
    pub packages: Vec<Package>,
    pub data: Vec<u8>,
}

impl SPKFile {
    /// Decode a container positioned at offset 0 of `data`: read the
    /// container header, then run the package decoder once per declared
    /// package, re-synchronizing the cursor between packages by each
    /// envelope's declared span. Any malformed record aborts the whole
    /// decode; no partial index is returned.
    #[verifier::rlimit(100)]
    pub fn parse(data: Vec<u8>) -> (r: Result<SPKFile, OpenError>)
        ensures
            match r {
                Ok(f) => spec_parse_container(data@) == Ok::<Seq<SpecPackage>, OpenError>(
                    package_views(f.packages@),
                ) && f.data@ == data@,
                Err(e) => spec_parse_container(data@) == Err::<Seq<SpecPackage>, OpenError>(e),
            },
    {
        let ghost gd = data@;
        let mut s = Stream::new(data);
        let hdr = match chunks::parse_spks(&mut s) {
            Some(h) => h,
            None => {
                return Err(OpenError::Parse);
            },
        };
        let n = hdr.chunk_count;
        let ghost p0 = s.pos as int;
        let mut packages: Vec<Package> = Vec::new();
        let mut k: u32 = 0;
        while k < n
            invariant
                s.data@ == gd,
                gd == data@,
                k <= n,
                spec_parse_container(gd) == spec_parse_packages(gd, p0, n as nat),
                ({
                    let whole = spec_parse_packages(gd, p0, n as nat);
                    match spec_parse_packages(gd, s.pos as int, (n - k) as nat) {
                        Ok(rest) => whole == Ok::<Seq<SpecPackage>, OpenError>(
                            package_views(packages@) + rest,
                        ),
                        Err(e) => whole == Err::<Seq<SpecPackage>, OpenError>(e),
                    }
                }),
            decreases n - k,
        {
            let p = match parse_package(&mut s) {
                Ok(p) => p,
                Err(e) => {
                    return Err(e);
                },
            };
            proof {
                assert(package_views(packages@.push(p)) =~= package_views(packages@).push(p@));
                match spec_parse_packages(gd, s.pos as int, (n - k - 1) as nat) {
                    Ok(rest) => {
                        assert(package_views(packages@) + (seq![p@] + rest) =~= package_views(
                            packages@.push(p),
                        ) + rest);
                    },
                    Err(e) => {},
                }
            }
            packages.push(p);
            k = k + 1;
        }
        proof {
            assert(package_views(packages@) + Seq::<SpecPackage>::empty() =~= package_views(
                packages@,
            ));
        }
        Ok(SPKFile { packages, data: s.data })
    }

    /// Read one file's contents from the archive: exactly `data_size` bytes
    /// at the file's resolved absolute offset. A range that runs past the
    /// underlying source is a read failure; nothing is cached, and repeated
    /// reads re-fetch from the source.
    pub fn read(&self, file: &FileInfo) -> (r: Result<Vec<u8>, ReadError>)
        ensures
            file.offset + file.data_size <= self.data@.len() ==> (r matches Ok(b) && b@
                == self.data@.subrange(
                file.offset as int,
                file.offset + file.data_size,
            )),
            file.offset + file.data_size > self.data@.len() ==> r == Err::<
                Vec<u8>,
                ReadError,
            >(ReadError::OutOfRange),
    {
        let len: u64 = self.data.len() as u64;
        if file.data_size <= len && file.offset <= len - file.data_size {
            let mut buf: Vec<u8> = Vec::new();
            let mut k: u64 = 0;
            while k < file.data_size
                invariant
                    k <= file.data_size,
                    self.data@.len() <= usize::MAX,
                    file.offset + file.data_size <= self.data@.len(),
                    buf@ =~= self.data@.subrange(file.offset as int, file.offset + k),
                decreases file.data_size - k,
            {
                buf.push(self.data[(file.offset + k) as usize]);
                k = k + 1;
            }
            assert(buf@ =~= self.data@.subrange(
                file.offset as int,
                file.offset + file.data_size,
            ));
            Ok(buf)
        } else {
            Err(ReadError::OutOfRange)
        }
    }
}

} // verus!

