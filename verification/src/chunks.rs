//! The chunk grammar: the fixed catalog of tagged record shapes that make up
//! an SPK container, with a spec-level decoder for each shape and verified
//! executable parsers that match it.
//!
//! Every chunk begins with a fixed 4-byte tag (read as a little-endian `u32`).
//! The grammar is positional: decoding dispatches on the tag and fails if it
//! does not match the expected value at that grammar position.

use vstd::prelude::*;

use crate::stream::{le16, le32, le64, spec_cstr, Stream};

verus! {

/// Tag of the container header, `b"SPKS"`.
pub const TAG_SPKS: u32 = 0x534B_5053;

/// Tag of the package envelope, `b"SPK0"`.
pub const TAG_SPK0: u32 = 0x304B_5053;

/// Tag of the package metadata record, `b"SIDX"`.
pub const TAG_SIDX: u32 = 0x5844_4953;

/// Tag of the optional auxiliary record, `b"SZ64"`.
pub const TAG_SZ64: u32 = 0x3436_5A53;

/// Tag of the string table, `b"STRS"`.
pub const TAG_STRS: u32 = 0x5352_5453;

/// Tag of the narrow file-entry record, `b"FINF"`.
pub const TAG_FINF: u32 = 0x464E_4946;

/// Tag of the wide file-entry record, `b"FI64"`.
pub const TAG_FI64: u32 = 0x3436_4946;

/// Tag of the file-entry list terminator, `b"FEND"`.
pub const TAG_FEND: u32 = 0x444E_4546;

/// Tag of the data-segment header, `b"SDAT"`.
pub const TAG_SDAT: u32 = 0x5441_4453;

/// Read the next four bytes and require them to equal the tag `t`; on a
/// mismatch or insufficient bytes, leave the cursor unmoved.
fn tag(s: &mut Stream, t: u32) -> (r: bool)
    ensures
        final(s).data == old(s).data,
        r == (old(s).pos + 4 <= old(s).data@.len() && le32(old(s).data@, old(s).pos as int) == t),
        r ==> final(s).pos == old(s).pos + 4,
        !r ==> final(s).pos == old(s).pos,
{
    let start = s.pos;
    match s.u32_le() {
        Some(v) => {
            if v == t {
                true
            } else {
                s.seek(start);
                false
            }
        },
        None => false,
    }
}

/// The package type tag carried in the package metadata record.
#[derive(Copy, Clone, Debug, PartialEq, Eq, Structural)]
pub enum PackageType {
    Spike1,
    Spike2,
    Game,
}

/// The package type denoted by the on-disk byte: 1, 3 and 2 respectively; any
/// other value is a structural decode failure.
pub open spec fn spec_package_type(b: u8) -> Option<PackageType> {
    if b == 1 {
        Some(PackageType::Spike1)
    } else if b == 3 {
        Some(PackageType::Spike2)
    } else if b == 2 {
        Some(PackageType::Game)
    } else {
        None
    }
}

impl PackageType {
    /// Root path prefix for resolved file names of this package type.
    pub open spec fn spec_path_prefix(self) -> Seq<char> {
        if self is Game {
            "/games/"@
        } else {
            "/"@
        }
    }

    /// The distinct root path prefix that downstream consumers put before
    /// resolved file names of a game package.
    pub fn path_prefix(&self) -> (r: &'static str)
        ensures
            r@ == self.spec_path_prefix(),
    {
        if *self == PackageType::Game {
            "/games/"
        } else {
            "/"
        }
    }
}

/// The dual on-disk encoding of a chunk's byte length: a plain 32-bit value
/// (`Legacy`), or a reserved all-ones sentinel followed by a 64-bit value
/// (`Extended`). The stored `Extended` value includes the chunk's own 4-byte
/// tag; the stored `Legacy` value does not.
#[derive(Copy, Clone, Debug, PartialEq, Eq, Structural)]
pub enum ByteLen {
    Extended(u64),
    Legacy(u32),
}

impl ByteLen {
    /// A decoded length is well-formed: the Extended stored value includes
    /// the chunk's own 4-byte tag, so it is at least 4.
    pub open spec fn wf(self) -> bool {
        match self {
            ByteLen::Extended(v) => v >= 4,
            ByteLen::Legacy(_) => true,
        }
    }

    /// Payload length declared by this value.
    pub open spec fn spec_byte_len(self) -> u64 {
        match self {
            ByteLen::Extended(v) => (v - 4) as u64,
            ByteLen::Legacy(v) => v as u64,
        }
    }

    /// Bytes from the start of the chunk's tag to the start of its payload.
    pub open spec fn spec_header_size(self) -> u64 {
        match self {
            ByteLen::Extended(_) => 16,
            ByteLen::Legacy(_) => 8,
        }
    }

    /// Payload length declared by this value: for the Extended form the
    /// stored value includes the chunk's 4-byte tag, which is not part of
    /// the payload.
    pub fn byte_len(&self) -> (r: u64)
        requires
            self.wf(),
        ensures
            r == self.spec_byte_len(),
    {
        match self {
            ByteLen::Extended(v) => *v - 4,
            ByteLen::Legacy(v) => *v as u64,
        }
    }

    /// Header size of the chunk: 16 for the Extended form (tag, sentinel and
    /// 64-bit value), 8 for the Legacy form (tag and 32-bit value).
    pub fn header_size(&self) -> (r: u64)
        ensures
            r == self.spec_header_size(),
    {
        match self {
            ByteLen::Extended(_) => 16,
            ByteLen::Legacy(_) => 8,
        }
    }
}

/// Decode a byte length at position `i`, just after a chunk tag: the 4-byte
/// legacy form, or the all-ones sentinel followed by the 8-byte extended
/// form. An extended value below 4 cannot include the tag it claims to cover
/// and is a structural failure.
pub open spec fn spec_parse_byte_len(s: Seq<u8>, i: int) -> Option<(ByteLen, int)> {
    if i + 4 <= s.len() {
        if le32(s, i) == 0xffff_ffffu32 {
            if i + 12 <= s.len() && le64(s, i + 4) >= 4 {
                Some((ByteLen::Extended(le64(s, i + 4)), i + 12))
            } else {
                None
            }
        } else {
            Some((ByteLen::Legacy(le32(s, i)), i + 4))
        }
    } else {
        None
    }
}

/// Parse a byte length with the cursor just after a chunk tag; on failure,
/// leave the cursor unmoved.
pub fn parse_byte_len(s: &mut Stream) -> (r: Option<ByteLen>)
    ensures
        final(s).data == old(s).data,
        match spec_parse_byte_len(old(s).data@, old(s).pos as int) {
            Some((bl, j)) => r == Some(bl) && bl.wf() && final(s).pos == j,
            None => r is None && final(s).pos == old(s).pos,
        },
{
    let start = s.pos;
    let w = match s.u32_le() {
        Some(w) => w,
        None => {
            return None;
        },
    };
    if w == 0xffff_ffff {
        match s.u64_le() {
            Some(v) => {
                if v >= 4 {
                    Some(ByteLen::Extended(v))
                } else {
                    s.seek(start);
                    None
                }
            },
            None => {
                s.seek(start);
                None
            },
        }
    } else {
        Some(ByteLen::Legacy(w))
    }
}

/// The container header: tag, byte length, and the number of packages.
#[derive(Copy, Clone, Debug, PartialEq, Eq, Structural)]
pub struct SPKS {
    pub byte_length: ByteLen,
    pub chunk_count: u32,
}

/// Decode the container header at position `i`.
pub open spec fn spec_parse_spks(s: Seq<u8>, i: int) -> Option<(SPKS, int)> {
    if i + 4 <= s.len() && le32(s, i) == TAG_SPKS {
        match spec_parse_byte_len(s, i + 4) {
            None => None,
            Some((bl, j)) => if j + 4 <= s.len() {
                Some((SPKS { byte_length: bl, chunk_count: le32(s, j) }, j + 4))
            } else {
                None
            },
        }
    } else {
        None
    }
}

/// Parse the container header; on failure, leave the cursor unmoved.
pub fn parse_spks(s: &mut Stream) -> (r: Option<SPKS>)
    ensures
        final(s).data == old(s).data,
        match spec_parse_spks(old(s).data@, old(s).pos as int) {
            Some((h, j)) => r == Some(h) && final(s).pos == j,
            None => r is None && final(s).pos == old(s).pos,
        },
{
    let start = s.pos;
    if !tag(s, TAG_SPKS) {
        return None;
    }
    let bl = match parse_byte_len(s) {
        Some(b) => b,
        None => {
            s.seek(start);
            return None;
        },
    };
    match s.u32_le() {
        Some(count) => Some(SPKS { byte_length: bl, chunk_count: count }),
        None => {
            s.seek(start);
            None
        },
    }
}

/// The package envelope: tag and byte length. Its only purpose is to state
/// the total span of one package's region, so the decoder can jump to the
/// next package even when the region holds undocumented trailing bytes.
#[derive(Copy, Clone, Debug, PartialEq, Eq, Structural)]
pub struct SPK0 {
    pub byte_len: ByteLen,
}

impl SPK0 {
    /// Bytes from the envelope tag to the next package's envelope.
    pub open spec fn spec_offset_to_next(self) -> int {
        self.byte_len.spec_header_size() + self.byte_len.spec_byte_len()
    }

    /// Bytes from the envelope tag to the next package's envelope.
    pub fn offset_to_next(&self) -> (r: u64)
        requires
            self.byte_len.wf(),
            self.spec_offset_to_next() <= u64::MAX,
        ensures
            r == self.spec_offset_to_next(),
    {
        self.byte_len.header_size() + self.byte_len.byte_len()
    }
}

/// Decode a package envelope at position `i`.
pub open spec fn spec_parse_spk0(s: Seq<u8>, i: int) -> Option<(SPK0, int)> {
    if i + 4 <= s.len() && le32(s, i) == TAG_SPK0 {
        match spec_parse_byte_len(s, i + 4) {
            None => None,
            Some((bl, j)) => Some((SPK0 { byte_len: bl }, j)),
        }
    } else {
        None
    }
}

/// Parse a package envelope; on failure, leave the cursor unmoved.
pub fn parse_spk0(s: &mut Stream) -> (r: Option<SPK0>)
    ensures
        final(s).data == old(s).data,
        match spec_parse_spk0(old(s).data@, old(s).pos as int) {
            Some((h, j)) => r == Some(h) && h.byte_len.wf() && final(s).pos == j,
            None => r is None && final(s).pos == old(s).pos,
        },
{
    let start = s.pos;
    if !tag(s, TAG_SPK0) {
        return None;
    }
    match parse_byte_len(s) {
        Some(bl) => Some(SPK0 { byte_len: bl }),
        None => {
            s.seek(start);
            None
        },
    }
}

/// The decoded fields of a package metadata record.
pub ghost struct SpecSidx {
    pub byte_len: ByteLen,
    pub package_name: Seq<u8>,
    pub package_id: Seq<u8>,
    pub major_version: u8,
    pub minor_version: u8,
    pub patch_version: u8,
    pub package_type: PackageType,
}

/// The package metadata record: tag, byte length, a 29-byte NUL-padded name
/// field, a 3-byte identifier field, three version components, a package
/// type tag, and 12 reserved bytes.
#[derive(Clone, Debug, PartialEq, Eq)]
pub struct SIDX {
    pub byte_len: ByteLen,
    pub package_name: Vec<u8>,
    pub package_id: Vec<u8>,
    pub major_version: u8,
    pub minor_version: u8,
    pub patch_version: u8,
    pub package_type: PackageType,
}

impl View for SIDX {
    type V = SpecSidx;

    open spec fn view(&self) -> SpecSidx {
        SpecSidx {
            byte_len: self.byte_len,
            package_name: self.package_name@,
            package_id: self.package_id@,
            major_version: self.major_version,
            minor_version: self.minor_version,
            patch_version: self.patch_version,
            package_type: self.package_type,
        }
    }
}

/// Decode a package metadata record at position `i`. An unknown package type
/// byte is a structural failure.
pub open spec fn spec_parse_sidx(s: Seq<u8>, i: int) -> Option<(SpecSidx, int)> {
    if i + 4 <= s.len() && le32(s, i) == TAG_SIDX {
        match spec_parse_byte_len(s, i + 4) {
            None => None,
            Some((bl, j)) => if j + 48 <= s.len() {
                match spec_package_type(s[j + 35]) {
                    None => None,
                    Some(pt) => Some(
                        (
                            SpecSidx {
                                byte_len: bl,
                                package_name: s.subrange(j, j + 29),
                                package_id: s.subrange(j + 29, j + 32),
                                major_version: s[j + 32],
                                minor_version: s[j + 33],
                                patch_version: s[j + 34],
                                package_type: pt,
                            },
                            j + 48,
                        ),
                    ),
                }
            } else {
                None
            },
        }
    } else {
        None
    }
}

/// Parse a package metadata record; on failure, leave the cursor unmoved.
pub fn parse_sidx(s: &mut Stream) -> (r: Option<SIDX>)
    ensures
        final(s).data == old(s).data,
        match spec_parse_sidx(old(s).data@, old(s).pos as int) {
            Some((m, j)) => (r matches Some(x) && x@ == m) && final(s).pos == j,
            None => r is None && final(s).pos == old(s).pos,
        },
{
    let start = s.pos;
    if !tag(s, TAG_SIDX) {
        return None;
    }
    let bl = match parse_byte_len(s) {
        Some(b) => b,
        None => {
            s.seek(start);
            return None;
        },
    };
    let name = match s.bytes(29) {
        Some(v) => v,
        None => {
            s.seek(start);
            return None;
        },
    };
    let id = match s.bytes(3) {
        Some(v) => v,
        None => {
            s.seek(start);
            return None;
        },
    };
    let major = match s.byte() {
        Some(v) => v,
        None => {
            s.seek(start);
            return None;
        },
    };
    let minor = match s.byte() {
        Some(v) => v,
        None => {
            s.seek(start);
            return None;
        },
    };
    let patch = match s.byte() {
        Some(v) => v,
        None => {
            s.seek(start);
            return None;
        },
    };
    let ptb = match s.byte() {
        Some(v) => v,
        None => {
            s.seek(start);
            return None;
        },
    };
    let pt = if ptb == 1 {
        PackageType::Spike1
    } else if ptb == 3 {
        PackageType::Spike2
    } else if ptb == 2 {
        PackageType::Game
    } else {
        s.seek(start);
        return None;
    };
    if !s.skip(12) {
        s.seek(start);
        return None;
    }
    Some(
        SIDX {
            byte_len: bl,
            package_name: name,
            package_id: id,
            major_version: major,
            minor_version: minor,
            patch_version: patch,
            package_type: pt,
        },
    )
}

/// The auxiliary record of unknown semantics: tag, a 32-bit length and an
/// 8-byte payload. It appears at most once per package, right after the
/// package metadata.
#[derive(Copy, Clone, Debug, PartialEq, Eq, Structural)]
pub struct SZ64 {
    pub byte_len: u32,
    pub unknown: u64,
}

/// Decode an auxiliary record at position `i`.
pub open spec fn spec_parse_sz64(s: Seq<u8>, i: int) -> Option<(SZ64, int)> {
    if i + 16 <= s.len() && le32(s, i) == TAG_SZ64 {
        Some((SZ64 { byte_len: le32(s, i + 4), unknown: le64(s, i + 8) }, i + 16))
    } else {
        None
    }
}

/// Probe for the optional auxiliary record: a decode failure is tolerated
/// and reported as absence, with the cursor left unmoved, rather than
/// aborting the package.
pub fn probe_sz64(s: &mut Stream) -> (r: Option<SZ64>)
    ensures
        final(s).data == old(s).data,
        match spec_parse_sz64(old(s).data@, old(s).pos as int) {
            Some((h, j)) => r == Some(h) && final(s).pos == j,
            None => r is None && final(s).pos == old(s).pos,
        },
{
    let start = s.pos;
    if !tag(s, TAG_SZ64) {
        return None;
    }
    let bl = match s.u32_le() {
        Some(v) => v,
        None => {
            s.seek(start);
            return None;
        },
    };
    match s.u64_le() {
        Some(u) => Some(SZ64 { byte_len: bl, unknown: u }),
        None => {
            s.seek(start);
            None
        },
    }
}

/// The string table: tag, a 32-bit byte length, and exactly that many bytes
/// of raw string storage, addressed by the pointer fields of file entries.
#[derive(Copy, Clone, Debug, PartialEq, Eq, Structural)]
pub struct STRS {
    pub byte_len: u32,
}

/// Decode a string table at position `i`: the storage itself stays in the
/// stream and is addressed later through pointer fields.
pub open spec fn spec_parse_strs(s: Seq<u8>, i: int) -> Option<(STRS, int)> {
    if i + 8 <= s.len() && le32(s, i) == TAG_STRS {
        if i + 8 + le32(s, i + 4) <= s.len() {
            Some((STRS { byte_len: le32(s, i + 4) }, i + 8 + le32(s, i + 4)))
        } else {
            None
        }
    } else {
        None
    }
}

/// Parse a string table header and skip its storage; on failure, leave the
/// cursor unmoved.
pub fn parse_strs(s: &mut Stream) -> (r: Option<STRS>)
    ensures
        final(s).data == old(s).data,
        match spec_parse_strs(old(s).data@, old(s).pos as int) {
            Some((h, j)) => r == Some(h) && final(s).pos == j,
            None => r is None && final(s).pos == old(s).pos,
        },
{
    let start = s.pos;
    if !tag(s, TAG_STRS) {
        return None;
    }
    let n = match s.u32_le() {
        Some(v) => v,
        None => {
            s.seek(start);
            return None;
        },
    };
    if !s.skip(n as u64) {
        s.seek(start);
        return None;
    }
    Some(STRS { byte_len: n })
}

/// The decoded fields of a narrow file entry, with its name already resolved
/// through the string table.
pub ghost struct SpecFinf {
    pub byte_len: u32,
    pub filename: Seq<u8>,
    pub file_size: u32,
    pub data_offset: u32,
    pub data_size: u32,
    pub mode: u16,
    pub data_hmac: Seq<u8>,
    pub data_md5: Seq<u8>,
}

/// The decoded fields of a wide file entry, with its name already resolved
/// through the string table.
pub ghost struct SpecFi64 {
    pub byte_len: u32,
    pub filename: Seq<u8>,
    pub file_size: u64,
    pub data_offset: u64,
    pub data_size: u64,
    pub mode: u16,
    pub data_hmac: Seq<u8>,
    pub data_md5: Seq<u8>,
}

/// One record of the file-entry list: a narrow entry, a wide entry, or the
/// terminator.
pub ghost enum SpecRecord {
    Finf(SpecFinf),
    Fi64(SpecFi64),
    Fend,
}

/// The narrow file-entry record: 32-bit sizes and pointer. `data_offset` is
/// relative to the package's data segment until offsets are finalized.
#[derive(Clone, Debug, PartialEq, Eq)]
pub struct FINF {
    pub byte_len: u32,
    pub filename: Vec<u8>,
    pub file_size: u32,
    pub data_offset: u32,
    pub data_size: u32,
    pub mode: u16,
    pub data_hmac: Vec<u8>,
    pub data_md5: Vec<u8>,
}

impl View for FINF {
    type V = SpecFinf;

    open spec fn view(&self) -> SpecFinf {
        SpecFinf {
            byte_len: self.byte_len,
            filename: self.filename@,
            file_size: self.file_size,
            data_offset: self.data_offset,
            data_size: self.data_size,
            mode: self.mode,
            data_hmac: self.data_hmac@,
            data_md5: self.data_md5@,
        }
    }
}

/// The wide file-entry record: 64-bit sizes and pointer. `data_offset` is
/// relative to the package's data segment until offsets are finalized.
#[derive(Clone, Debug, PartialEq, Eq)]
pub struct FI64 {
    pub byte_len: u32,
    pub filename: Vec<u8>,
    pub file_size: u64,
    pub data_offset: u64,
    pub data_size: u64,
    pub mode: u16,
    pub data_hmac: Vec<u8>,
    pub data_md5: Vec<u8>,
}

impl View for FI64 {
    type V = SpecFi64;

    open spec fn view(&self) -> SpecFi64 {
        SpecFi64 {
            byte_len: self.byte_len,
            filename: self.filename@,
            file_size: self.file_size,
            data_offset: self.data_offset,
            data_size: self.data_size,
            mode: self.mode,
            data_hmac: self.data_hmac@,
            data_md5: self.data_md5@,
        }
    }
}

/// The file-entry list terminator; its length field is always zero.
#[derive(Copy, Clone, Debug, PartialEq, Eq, Structural)]
pub struct FEND {
    pub byte_len: u32,
}

/// One decoded record of a package's file-entry list.
#[derive(Clone, Debug, PartialEq, Eq)]
pub enum FileInfo {
    FINF(FINF),
    FI64(FI64),
    FEND(FEND),
}

impl View for FileInfo {
    type V = SpecRecord;

    open spec fn view(&self) -> SpecRecord {
        match self {
            FileInfo::FINF(f) => SpecRecord::Finf(f@),
            FileInfo::FI64(f) => SpecRecord::Fi64(f@),
            FileInfo::FEND(_) => SpecRecord::Fend,
        }
    }
}

/// Decode a narrow file entry at position `i`, resolving its name pointer
/// against the string storage base `base`. A name that runs past the end of
/// the stream without a NUL terminator is a structural failure.
pub open spec fn spec_parse_finf(s: Seq<u8>, i: int, base: int) -> Option<SpecFinf> {
    if i + 68 <= s.len() && le32(s, i) == TAG_FINF {
        match spec_cstr(s, base + le32(s, i + 8)) {
            None => None,
            Some(name) => Some(
                SpecFinf {
                    byte_len: le32(s, i + 4),
                    filename: name,
                    file_size: le32(s, i + 12),
                    data_offset: le32(s, i + 16),
                    data_size: le32(s, i + 20),
                    mode: le16(s, i + 24),
                    data_hmac: s.subrange(i + 29, i + 49),
                    data_md5: s.subrange(i + 49, i + 65),
                },
            ),
        }
    } else {
        None
    }
}

/// Decode a wide file entry at position `i`, resolving its name pointer
/// against the string storage base `base`.
pub open spec fn spec_parse_fi64(s: Seq<u8>, i: int, base: int) -> Option<SpecFi64> {
    if i + 88 <= s.len() && le32(s, i) == TAG_FI64 {
        match spec_cstr(s, base + le64(s, i + 8)) {
            None => None,
            Some(name) => Some(
                SpecFi64 {
                    byte_len: le32(s, i + 4),
                    filename: name,
                    file_size: le64(s, i + 16),
                    data_offset: le64(s, i + 24),
                    data_size: le64(s, i + 32),
                    mode: le16(s, i + 40),
                    data_hmac: s.subrange(i + 45, i + 65),
                    data_md5: s.subrange(i + 65, i + 81),
                },
            ),
        }
    } else {
        None
    }
}

/// Decode one record of the file-entry list at position `i`: dispatch on the
/// tag to a narrow entry, a wide entry, or the terminator. A terminator with
/// a nonzero length field is a structural failure, never an accepted empty
/// terminator.
pub open spec fn spec_parse_record(s: Seq<u8>, i: int, base: int) -> Option<(SpecRecord, int)> {
    if i + 4 > s.len() {
        None
    } else {
        let t = le32(s, i);
        if t == TAG_FINF {
            match spec_parse_finf(s, i, base) {
                None => None,
                Some(f) => Some((SpecRecord::Finf(f), i + 68)),
            }
        } else if t == TAG_FI64 {
            match spec_parse_fi64(s, i, base) {
                None => None,
                Some(f) => Some((SpecRecord::Fi64(f), i + 88)),
            }
        } else if t == TAG_FEND {
            if i + 8 <= s.len() && le32(s, i + 4) == 0 {
                Some((SpecRecord::Fend, i + 8))
            } else {
                None
            }
        } else {
            None
        }
    }
}

/// Parse one record of the file-entry list, resolving its name pointer
/// against the string storage base `base`; on failure, leave the cursor
/// unmoved.
/// Parse a narrow file entry, resolving its name pointer against the
/// string storage base `base`; on failure, leave the cursor unmoved.
fn parse_finf(s: &mut Stream, base: u64) -> (r: Option<FINF>)
    ensures
        final(s).data == old(s).data,
        match spec_parse_finf(old(s).data@, old(s).pos as int, base as int) {
            Some(f) => (r matches Some(x) && x@ == f) && final(s).pos == old(s).pos + 68,
            None => r is None && final(s).pos == old(s).pos,
        },
{
    let start = s.pos;
    if !tag(s, TAG_FINF) {
        return None;
    }
    let byte_len = match s.u32_le() {
        Some(v) => v,
        None => {
            s.seek(start);
            return None;
        },
    };
    let ptr = match s.u32_le() {
        Some(v) => v,
        None => {
            s.seek(start);
            return None;
        },
    };
    let file_size = match s.u32_le() {
        Some(v) => v,
        None => {
            s.seek(start);
            return None;
        },
    };
    let data_offset = match s.u32_le() {
        Some(v) => v,
        None => {
            s.seek(start);
            return None;
        },
    };
    let data_size = match s.u32_le() {
        Some(v) => v,
        None => {
            s.seek(start);
            return None;
        },
    };
    let mode = match s.u16_le() {
        Some(v) => v,
        None => {
            s.seek(start);
            return None;
        },
    };
    if !s.skip(3) {
        s.seek(start);
        return None;
    }
    let hmac = match s.bytes(20) {
        Some(v) => v,
        None => {
            s.seek(start);
            return None;
        },
    };
    let md5 = match s.bytes(16) {
        Some(v) => v,
        None => {
            s.seek(start);
            return None;
        },
    };
    if !s.skip(3) {
        s.seek(start);
        return None;
    }
    if ptr as u64 > u64::MAX - base {
        let dlen = s.data.len();
        s.seek(start);
        assert(base + ptr as u64 > dlen as u64);
        return None;
    }
    let name = match s.cstr_at(base + ptr as u64) {
        Some(v) => v,
        None => {
            s.seek(start);
            return None;
        },
    };
    Some(
        FINF {
            byte_len,
            filename: name,
            file_size,
            data_offset,
            data_size,
            mode,
            data_hmac: hmac,
            data_md5: md5,
        },
    )
}

/// Parse a wide file entry, resolving its name pointer against the string
/// storage base `base`; on failure, leave the cursor unmoved.
fn parse_fi64(s: &mut Stream, base: u64) -> (r: Option<FI64>)
    ensures
        final(s).data == old(s).data,
        match spec_parse_fi64(old(s).data@, old(s).pos as int, base as int) {
            Some(f) => (r matches Some(x) && x@ == f) && final(s).pos == old(s).pos + 88,
            None => r is None && final(s).pos == old(s).pos,
        },
{
    let start = s.pos;
    if !tag(s, TAG_FI64) {
        return None;
    }
    let byte_len = match s.u32_le() {
        Some(v) => v,
        None => {
            s.seek(start);
            return None;
        },
    };
    let ptr = match s.u64_le() {
        Some(v) => v,
        None => {
            s.seek(start);
            return None;
        },
    };
    let file_size = match s.u64_le() {
        Some(v) => v,
        None => {
            s.seek(start);
            return None;
        },
    };
    let data_offset = match s.u64_le() {
        Some(v) => v,
        None => {
            s.seek(start);
            return None;
        },
    };
    let data_size = match s.u64_le() {
        Some(v) => v,
        None => {
            s.seek(start);
            return None;
        },
    };
    let mode = match s.u16_le() {
        Some(v) => v,
        None => {
            s.seek(start);
            return None;
        },
    };
    if !s.skip(3) {
        s.seek(start);
        return None;
    }
    let hmac = match s.bytes(20) {
        Some(v) => v,
        None => {
            s.seek(start);
            return None;
        },
    };
    let md5 = match s.bytes(16) {
        Some(v) => v,
        None => {
            s.seek(start);
            return None;
        },
    };
    if !s.skip(7) {
        s.seek(start);
        return None;
    }
    if ptr > u64::MAX - base {
        let dlen = s.data.len();
        s.seek(start);
        assert(base + ptr > dlen as u64);
        return None;
    }
    let name = match s.cstr_at(base + ptr) {
        Some(v) => v,
        None => {
            s.seek(start);
            return None;
        },
    };
    Some(
        FI64 {
            byte_len,
            filename: name,
            file_size,
            data_offset,
            data_size,
            mode,
            data_hmac: hmac,
            data_md5: md5,
        },
    )
}

/// Parse one record of the file-entry list, resolving its name pointer
/// against the string storage base `base`; on failure, leave the cursor
/// unmoved.
pub fn parse_file_info(s: &mut Stream, base: u64) -> (r: Option<FileInfo>)
    ensures
        final(s).data == old(s).data,
        match spec_parse_record(old(s).data@, old(s).pos as int, base as int) {
            Some((m, j)) => (r matches Some(c) && c@ == m) && final(s).pos == j,
            None => r is None && final(s).pos == old(s).pos,
        },
{
    let start = s.pos;
    let t = match s.u32_le() {
        Some(t) => t,
        None => {
            return None;
        },
    };
    s.seek(start);
    if t == TAG_FINF {
        match parse_finf(s, base) {
            Some(f) => Some(FileInfo::FINF(f)),
            None => None,
        }
    } else if t == TAG_FI64 {
        match parse_fi64(s, base) {
            Some(f) => Some(FileInfo::FI64(f)),
            None => None,
        }
    } else if t == TAG_FEND {
        if !tag(s, TAG_FEND) {
            return None;
        }
        match s.u32_le() {
            Some(v) => {
                if v == 0 {
                    Some(FileInfo::FEND(FEND { byte_len: v }))
                } else {
                    s.seek(start);
                    None
                }
            },
            None => {
                s.seek(start);
                None
            },
        }
    } else {
        None
    }
}

/// The narrow shape zero-widened into the canonical wide shape.
pub open spec fn spec_widen(f: SpecFinf) -> SpecFi64 {
    SpecFi64 {
        byte_len: f.byte_len,
        filename: f.filename,
        file_size: f.file_size as u64,
        data_offset: f.data_offset as u64,
        data_size: f.data_size as u64,
        mode: f.mode,
        data_hmac: f.data_hmac,
        data_md5: f.data_md5,
    }
}

/// The canonical wide shape of a record: a narrow entry is zero-widened, a
/// wide entry passes through unchanged, and the terminator — an end-of-list
/// signal, not a record — has no canonical shape.
pub open spec fn spec_normalize(r: SpecRecord) -> Option<SpecFi64> {
    match r {
        SpecRecord::Finf(f) => Some(spec_widen(f)),
        SpecRecord::Fi64(w) => Some(w),
        SpecRecord::Fend => None,
    }
}

impl FileInfo {
    /// Unify the two file-entry widths into the canonical wide shape: a
    /// narrow entry has each numeric field zero-widened, a wide entry passes
    /// through unchanged, and the terminator yields `None` — callers must
    /// branch on it instead of treating it as a record.
    pub fn normalize(self) -> (r: Option<FI64>)
        ensures
            match spec_normalize(self@) {
                Some(w) => r matches Some(x) && x@ == w,
                None => r is None,
            },
    {
        match self {
            FileInfo::FINF(f) => Some(
                FI64 {
                    byte_len: f.byte_len,
                    filename: f.filename,
                    file_size: f.file_size as u64,
                    data_offset: f.data_offset as u64,
                    data_size: f.data_size as u64,
                    mode: f.mode,
                    data_hmac: f.data_hmac,
                    data_md5: f.data_md5,
                },
            ),
            FileInfo::FI64(w) => Some(w),
            FileInfo::FEND(_) => None,
        }
    }
}

/// The data-segment header: tag and byte length. Its position plus its
/// header size is the base to which every file entry's data offset in the
/// package is added.
#[derive(Copy, Clone, Debug, PartialEq, Eq, Structural)]
pub struct SDAT {
    pub byte_len: ByteLen,
}

impl SDAT {
    /// Declared length of the data segment.
    pub fn byte_len(&self) -> (r: u64)
        requires
            self.byte_len.wf(),
        ensures
            r == self.byte_len.spec_byte_len(),
    {
        self.byte_len.byte_len()
    }

    /// Bytes from the data-segment tag to the start of the stored data: the
    /// base for resolving the package's file offsets.
    pub fn header_size(&self) -> (r: u64)
        ensures
            r == self.byte_len.spec_header_size(),
    {
        self.byte_len.header_size()
    }
}

/// Decode a data-segment header at position `i`.
pub open spec fn spec_parse_sdat(s: Seq<u8>, i: int) -> Option<(SDAT, int)> {
    if i + 4 <= s.len() && le32(s, i) == TAG_SDAT {
        match spec_parse_byte_len(s, i + 4) {
            None => None,
            Some((bl, j)) => Some((SDAT { byte_len: bl }, j)),
        }
    } else {
        None
    }
}

/// Parse a data-segment header; on failure, leave the cursor unmoved.
pub fn parse_sdat(s: &mut Stream) -> (r: Option<SDAT>)
    ensures
        final(s).data == old(s).data,
        match spec_parse_sdat(old(s).data@, old(s).pos as int) {
            Some((h, j)) => r == Some(h) && h.byte_len.wf() && final(s).pos == j,
            None => r is None && final(s).pos == old(s).pos,
        },
{
    let start = s.pos;
    if !tag(s, TAG_SDAT) {
        return None;
    }
    match parse_byte_len(s) {
        Some(bl) => Some(SDAT { byte_len: bl }),
        None => {
            s.seek(start);
            None
        },
    }
}

/// The four little-endian bytes of `v`.
pub open spec fn le32_bytes(v: u32) -> Seq<u8> {
    seq![
        (v % 0x100) as u8,
        ((v / 0x100) % 0x100) as u8,
        ((v / 0x10000) % 0x100) as u8,
        ((v / 0x1000000) % 0x100) as u8,
    ]
}

/// The eight little-endian bytes of `v`.
pub open spec fn le64_bytes(v: u64) -> Seq<u8> {
    seq![
        (v % 0x100) as u8,
        ((v / 0x100) % 0x100) as u8,
        ((v / 0x10000) % 0x100) as u8,
        ((v / 0x1000000) % 0x100) as u8,
        ((v / 0x100000000) % 0x100) as u8,
        ((v / 0x10000000000) % 0x100) as u8,
        ((v / 0x1000000000000) % 0x100) as u8,
        ((v / 0x100000000000000) % 0x100) as u8,
    ]
}

/// Reading back the four little-endian bytes of `v` gives `v`.
pub proof fn lemma_le32_bytes_round_trip(s: Seq<u8>, i: int, v: u32)
    requires
        0 <= i,
        i + 4 <= s.len(),
        s.subrange(i, i + 4) == le32_bytes(v),
    ensures
        le32(s, i) == v,
{
    assert forall|k: int| 0 <= k < 4 implies s[i + k] == le32_bytes(v)[k] by {
        assert(s.subrange(i, i + 4)[k] == s[i + k]);
    }
    assert(v % 0x100 + ((v / 0x100) % 0x100) * 0x100 + ((v / 0x10000) % 0x100) * 0x10000 + ((v
        / 0x1000000) % 0x100) * 0x1000000 == v) by (bit_vector);
}

/// Reading back the eight little-endian bytes of `v` gives `v`.
pub proof fn lemma_le64_bytes_round_trip(s: Seq<u8>, i: int, v: u64)
    requires
        0 <= i,
        i + 8 <= s.len(),
        s.subrange(i, i + 8) == le64_bytes(v),
    ensures
        le64(s, i) == v,
{
    assert forall|k: int| 0 <= k < 8 implies s[i + k] == le64_bytes(v)[k] by {
        assert(s.subrange(i, i + 8)[k] == s[i + k]);
    }
    assert(v % 0x100 + ((v / 0x100) % 0x100) * 0x100 + ((v / 0x10000) % 0x100) * 0x10000 + ((v
        / 0x1000000) % 0x100) * 0x1000000 + ((v / 0x100000000) % 0x100) * 0x100000000 + ((v
        / 0x10000000000) % 0x100) * 0x10000000000 + ((v / 0x1000000000000) % 0x100)
        * 0x1000000000000 + ((v / 0x100000000000000) % 0x100) * 0x100000000000000 == v)
        by (bit_vector);
}

/// The byte-length forms a value can be encoded in: a Legacy value must not
/// collide with the Extended sentinel; an Extended stored value includes the
/// chunk's own 4-byte tag, so it is at least 4.
pub open spec fn spec_encodable(bl: ByteLen) -> bool {
    match bl {
        ByteLen::Legacy(v) => v != 0xffff_ffffu32,
        ByteLen::Extended(v) => v >= 4,
    }
}

/// The on-disk bytes of a byte-length value, laid down just after a chunk's
/// 4-byte tag.
pub open spec fn spec_encode_byte_len(bl: ByteLen) -> Seq<u8> {
    match bl {
        ByteLen::Legacy(v) => le32_bytes(v),
        ByteLen::Extended(v) => le32_bytes(0xffff_ffffu32) + le64_bytes(v),
    }
}

/// Length codec round trip: an encodable byte-length value written just
/// after a chunk tag at `i` decodes back to itself, and `header_size() +
/// byte_len()` equals the number of bytes from the start of the chunk's tag
/// to the start of the next sibling chunk — the tag, the length field, and
/// the payload — for both forms, the Extended form's stored value including
/// its own tag bytes.
pub proof fn lemma_length_codec_round_trip(s: Seq<u8>, i: int, bl: ByteLen)
    requires
        0 <= i,
        spec_encodable(bl),
        i + 4 + spec_encode_byte_len(bl).len() <= s.len(),
        s.subrange(i + 4, i + 4 + spec_encode_byte_len(bl).len()) == spec_encode_byte_len(bl),
    ensures
        spec_parse_byte_len(s, i + 4) == Some(
            (bl, i + 4 + spec_encode_byte_len(bl).len() as int),
        ),
        bl.wf(),
        bl.spec_header_size() + bl.spec_byte_len() == (4 + spec_encode_byte_len(bl).len())
            + bl.spec_byte_len(),
{
    match bl {
        ByteLen::Legacy(v) => {
            assert(spec_encode_byte_len(bl).len() == 4);
            lemma_le32_bytes_round_trip(s, i + 4, v);
        },
        ByteLen::Extended(v) => {
            assert(spec_encode_byte_len(bl).len() == 12);
            assert(s.subrange(i + 4, i + 8) =~= le32_bytes(0xffff_ffffu32)) by {
                assert forall|k: int| 0 <= k < 4 implies #[trigger] (s.subrange(
                    i + 4,
                    i + 8,
                )[k]) == spec_encode_byte_len(bl)[k] by {
                    assert(s.subrange(i + 4, i + 16)[k] == s[i + 4 + k]);
                }
            }
            lemma_le32_bytes_round_trip(s, i + 4, 0xffff_ffffu32);
            assert(s.subrange(i + 8, i + 16) =~= le64_bytes(v)) by {
                assert forall|k: int| 0 <= k < 8 implies #[trigger] (s.subrange(
                    i + 8,
                    i + 16,
                )[k]) == spec_encode_byte_len(bl)[4 + k] by {
                    assert(s.subrange(i + 4, i + 16)[4 + k] == s[i + 8 + k]);
                }
            }
            lemma_le64_bytes_round_trip(s, i + 8, v);
        },
    }
}

/// Terminator enforcement: a terminator record with a nonzero length field
/// is a structural decode failure, never an accepted empty terminator.
pub proof fn lemma_terminator_enforcement(s: Seq<u8>, i: int, base: int)
    requires
        0 <= i,
        i + 8 <= s.len(),
        le32(s, i) == TAG_FEND,
        le32(s, i + 4) != 0,
    ensures
        spec_parse_record(s, i, base) is None,
{
}

/// Normalization is the identity on wide records.
pub proof fn lemma_normalize_wide_identity(w: SpecFi64)
    ensures
        spec_normalize(SpecRecord::Fi64(w)) == Some(w),
{
}

/// Normalization zero-widens each narrow numeric field without truncation
/// and keeps the resolved name, mode and digests.
pub proof fn lemma_normalize_widens(f: SpecFinf)
    ensures
        spec_normalize(SpecRecord::Finf(f)) == Some(spec_widen(f)),
        spec_widen(f).file_size as int == f.file_size as int,
        spec_widen(f).data_offset as int == f.data_offset as int,
        spec_widen(f).data_size as int == f.data_size as int,
        spec_widen(f).mode == f.mode,
        spec_widen(f).filename == f.filename,
        spec_widen(f).data_hmac == f.data_hmac,
        spec_widen(f).data_md5 == f.data_md5,
        spec_widen(f).byte_len == f.byte_len,
{
}

} // verus!
