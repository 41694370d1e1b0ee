//! Archive formats and the limits an extracted archive must obey.
//!
//! Extraction produces an ordinary source tree; skill discovery and
//! installation remain responsibilities of the common source flow. The
//! caller moves bytes between files; every decision about what an archive
//! may contain is made here.
use crate::text::{chars_of, split, split_on, string_of, views};
use vstd::prelude::*;

verus! {

/// Largest download accepted, in bytes.
pub const MAX_DOWNLOAD: u64 = 134217728;

/// Largest expanded size of an archive, in bytes.
pub const MAX_EXPANDED: u64 = 536870912;

/// Most entries an archive may hold.
pub const MAX_ENTRIES: usize = 20000;

/// Largest metadata record (TAR extension headers, ZIP64 end records), in bytes.
pub const MAX_METADATA: u64 = 1048576;

/// Memory the XZ decoder may use, in KiB.
pub const XZ_MEMORY_LIMIT_KIB: u32 = 131072;

/// The container or compression format recognised from an archive's first bytes.
#[derive(Debug, Clone, Copy, PartialEq, Eq)]
pub enum Format {
    Zip,
    Tar,
    Gzip,
    Bzip2,
    Xz,
}

/// Why an archive was refused.
#[derive(Debug, Clone, Copy, PartialEq, Eq)]
pub enum ArchiveError {
    /// Not ZIP, TAR, TAR.GZ, TAR.BZ2 or TAR.XZ.
    Unsupported,
    /// More entries than the entry limit.
    TooManyEntries,
    /// A TAR metadata record larger than [`MAX_METADATA`].
    MetadataTooLarge,
    /// A path that is absolute, climbs out, or holds `\`, `:` or control characters.
    UnsafePath,
    /// A path with more than 64 components or 4096 bytes.
    PathTooLong,
    /// A symbolic link, hard link, device or other special entry.
    UnsupportedEntry,
    /// A file with an empty path, or one that exceeds the remaining expansion budget.
    FileTooLarge,
    /// A file shorter than its header declares.
    Truncated,
    /// More expanded bytes than the limit allows.
    SizeLimit,
    /// A ZIP archive without a complete end of central directory record.
    NoEndRecord,
    /// A ZIP archive split over several disks.
    SplitArchive,
    /// A ZIP end record whose entry counts disagree.
    InconsistentCounts,
    /// A ZIP64 end record that is missing, invalid, or too large.
    Zip64Invalid,
    /// An earlier ZIP end record that exceeds the entry limit.
    EndRecordLimit,
    /// A ZIP64 end record that exceeds the metadata or entry limit.
    Zip64Limit,
    /// A ZIP directory whose entries do not match its declared count.
    DuplicateEntries,
    /// ZIP entries whose compressed data overlap.
    OverlappingData,
    /// A truncated or invalid XZ stream.
    InvalidXz,
    /// The decoder reported corrupt or unreadable data.
    Corrupt,
    /// A ZIP entry whose data would reach past the largest offset.
    InvalidRange,
    /// An entry path that is not UTF-8.
    NotUtf8,
}

/// The message shown to the user for each refusal.
pub open spec fn archive_message(e: ArchiveError) -> &'static str {
    match e {
        ArchiveError::Unsupported => "unsupported archive; expected ZIP, TAR, TAR.GZ, TAR.BZ2, or TAR.XZ",
        ArchiveError::TooManyEntries => "archive contains too many entries",
        ArchiveError::MetadataTooLarge => "archive metadata is too large",
        ArchiveError::UnsafePath => "unsafe archive path",
        ArchiveError::PathTooLong => "archive path is too long",
        ArchiveError::UnsupportedEntry => "archive contains a link or unsupported entry",
        ArchiveError::FileTooLarge => "archive file is invalid or exceeds the expanded size limit",
        ArchiveError::Truncated => "archive entry is truncated",
        ArchiveError::SizeLimit => "size limit exceeded",
        ArchiveError::NoEndRecord => "ZIP archive has no complete end record",
        ArchiveError::SplitArchive => "split ZIP archives are not supported",
        ArchiveError::InconsistentCounts => "ZIP archive has inconsistent entry counts",
        ArchiveError::Zip64Invalid => "ZIP64 end record is invalid or too large",
        ArchiveError::EndRecordLimit => "ZIP end record exceeds the entry limit",
        ArchiveError::Zip64Limit => "ZIP64 end record exceeds the metadata or entry limit",
        ArchiveError::DuplicateEntries => "ZIP archive contains duplicate or inconsistent entries",
        ArchiveError::OverlappingData => "ZIP archive contains overlapping file data",
        ArchiveError::InvalidXz => "truncated or invalid XZ archive",
        ArchiveError::Corrupt => "archive data is corrupt or unreadable",
        ArchiveError::InvalidRange => "invalid ZIP data range",
        ArchiveError::NotUtf8 => "archive path is not UTF-8",
    }
}

impl ArchiveError {
    /// A message for the user.
    pub fn message(&self) -> (r: &'static str)
        ensures
            r == archive_message(*self),
    {
        match self {
            ArchiveError::Unsupported => "unsupported archive; expected ZIP, TAR, TAR.GZ, TAR.BZ2, or TAR.XZ",
            ArchiveError::TooManyEntries => "archive contains too many entries",
            ArchiveError::MetadataTooLarge => "archive metadata is too large",
            ArchiveError::UnsafePath => "unsafe archive path",
            ArchiveError::PathTooLong => "archive path is too long",
            ArchiveError::UnsupportedEntry => "archive contains a link or unsupported entry",
            ArchiveError::FileTooLarge => "archive file is invalid or exceeds the expanded size limit",
            ArchiveError::Truncated => "archive entry is truncated",
            ArchiveError::SizeLimit => "size limit exceeded",
            ArchiveError::NoEndRecord => "ZIP archive has no complete end record",
            ArchiveError::SplitArchive => "split ZIP archives are not supported",
            ArchiveError::InconsistentCounts => "ZIP archive has inconsistent entry counts",
            ArchiveError::Zip64Invalid => "ZIP64 end record is invalid or too large",
            ArchiveError::EndRecordLimit => "ZIP end record exceeds the entry limit",
            ArchiveError::Zip64Limit => "ZIP64 end record exceeds the metadata or entry limit",
            ArchiveError::DuplicateEntries => "ZIP archive contains duplicate or inconsistent entries",
            ArchiveError::OverlappingData => "ZIP archive contains overlapping file data",
            ArchiveError::InvalidXz => "truncated or invalid XZ archive",
            ArchiveError::Corrupt => "archive data is corrupt or unreadable",
            ArchiveError::InvalidRange => "invalid ZIP data range",
            ArchiveError::NotUtf8 => "archive path is not UTF-8",
        }
    }
}

/// `s` begins with the bytes `p`.
pub open spec fn bytes_start_with(s: Seq<u8>, p: Seq<u8>) -> bool {
    p.len() <= s.len() && s.take(p.len() as int) == p
}

/// The signature of a ZIP local file header.
pub open spec fn zip_local() -> Seq<u8> {
    seq![0x50u8, 0x4b, 0x03, 0x04]
}

/// The signature of a ZIP end of central directory record.
pub open spec fn zip_end() -> Seq<u8> {
    seq![0x50u8, 0x4b, 0x05, 0x06]
}

/// The signature of a ZIP64 end of central directory record.
pub open spec fn zip64_end() -> Seq<u8> {
    seq![0x50u8, 0x4b, 0x06, 0x06]
}

/// The signature of a ZIP64 end of central directory locator.
pub open spec fn zip64_locator() -> Seq<u8> {
    seq![0x50u8, 0x4b, 0x06, 0x07]
}

/// The magic bytes of a gzip member.
pub open spec fn gzip_magic() -> Seq<u8> {
    seq![0x1fu8, 0x8b]
}

/// The magic bytes of a bzip2 stream (`BZh`).
pub open spec fn bzip2_magic() -> Seq<u8> {
    seq![0x42u8, 0x5a, 0x68]
}

/// The magic bytes of an XZ stream.
pub open spec fn xz_magic() -> Seq<u8> {
    seq![0xfdu8, 0x37, 0x7a, 0x58, 0x5a, 0x00]
}

/// The header checksum of a TAR block: the sum of its bytes, with the eight
/// bytes of the checksum field counted as spaces.
pub open spec fn tar_checksum(h: Seq<u8>, n: int) -> int
    decreases n,
{
    if n <= 0 {
        0
    } else {
        tar_checksum(h, n - 1) + if 148 <= n - 1 < 156 {
            32
        } else {
            h[n - 1] as int
        }
    }
}

/// `s` without leading or trailing NUL and space bytes.
pub open spec fn trim_field(s: Seq<u8>) -> Seq<u8>
    decreases s.len(),
{
    if s.len() > 0 && (s[0] == 0 || s[0] == 32) {
        trim_field(s.drop_first())
    } else if s.len() > 0 && (s.last() == 0 || s.last() == 32) {
        trim_field(s.drop_last())
    } else {
        s
    }
}

/// An octal digit.
pub open spec fn is_octal(b: u8) -> bool {
    48 <= b <= 55
}

/// The value of octal digits.
pub open spec fn octal_value(s: Seq<u8>) -> int
    decreases s.len(),
{
    if s.len() == 0 {
        0
    } else {
        octal_value(s.drop_last()) * 8 + (s.last() - 48)
    }
}

/// Octal text read as an unsigned number: an optional `+` and at least one
/// octal digit, nothing else.
pub open spec fn parse_octal(s: Seq<u8>) -> Option<int> {
    if unsigned_digits(s).len() > 0 && all_octal(unsigned_digits(s)) {
        Some(octal_value(unsigned_digits(s)))
    } else {
        None
    }
}

/// `s` without one leading `+`.
pub open spec fn unsigned_digits(s: Seq<u8>) -> Seq<u8> {
    if s.len() > 0 && s[0] == 43 {
        s.drop_first()
    } else {
        s
    }
}

/// Every byte of `d` is an octal digit.
pub open spec fn all_octal(d: Seq<u8>) -> bool {
    forall|i: int| 0 <= i < d.len() ==> is_octal(#[trigger] d[i])
}

/// A TAR header block whose checksum field holds its checksum.
pub open spec fn spec_tar_header_valid(h: Seq<u8>) -> bool {
    parse_octal(trim_field(h.subrange(148, 156))) == Some(tar_checksum(h, 512))
}

/// The format recognised from the first bytes of a payload.
pub open spec fn spec_detect(b: Seq<u8>) -> Option<Format> {
    if bytes_start_with(b, zip_local()) || bytes_start_with(b, zip_end()) {
        Some(Format::Zip)
    } else if bytes_start_with(b, gzip_magic()) {
        Some(Format::Gzip)
    } else if bytes_start_with(b, bzip2_magic()) {
        Some(Format::Bzip2)
    } else if bytes_start_with(b, xz_magic()) {
        Some(Format::Xz)
    } else if b.len() >= 512 && spec_tar_header_valid(b.take(512)) {
        Some(Format::Tar)
    } else {
        None
    }
}

/// Whether `s` begins with the bytes `p`.
pub fn starts_with_bytes(s: &[u8], p: &[u8]) -> (r: bool)
    ensures
        r == bytes_start_with(s@, p@),
{
    if p.len() > s.len() {
        return false;
    }
    let mut i: usize = 0;
    while i < p.len()
        invariant
            p@.len() <= s@.len(),
            i <= p@.len(),
            forall|j: int| 0 <= j < i ==> s@[j] == p@[j],
        decreases p@.len() - i,
    {
        if s[i] != p[i] {
            assert(s@.take(p@.len() as int)[i as int] != p@[i as int]);
            return false;
        }
        i = i + 1;
    }
    assert(s@.take(p@.len() as int) =~= p@);
    true
}

proof fn lemma_tar_checksum_bound(h: Seq<u8>, n: int)
    requires
        0 <= n,
    ensures
        0 <= tar_checksum(h, n) <= 255 * n,
    decreases n,
{
    if n > 0 {
        lemma_tar_checksum_bound(h, n - 1);
    }
}

proof fn lemma_trim_field_start(s: Seq<u8>, i: int)
    requires
        0 <= i <= s.len(),
        forall|j: int| 0 <= j < i ==> (s[j] == 0 || s[j] == 32),
        i < s.len() ==> !(s[i] == 0 || s[i] == 32),
    ensures
        trim_field(s) == trim_field(s.skip(i)),
    decreases i,
{
    if i > 0 {
        assert(s.drop_first().skip(i - 1) == s.skip(i));
        assert forall|j: int| 0 <= j < i - 1 implies (s.drop_first()[j] == 0 || s.drop_first()[j]
            == 32) by {
            assert(s.drop_first()[j] == s[j + 1]);
        }
        lemma_trim_field_start(s.drop_first(), i - 1);
    } else {
        assert(s.skip(0) == s);
    }
}

proof fn lemma_trim_field_end(s: Seq<u8>, k: int)
    requires
        0 <= k <= s.len(),
        s.len() > 0 ==> !(s[0] == 0 || s[0] == 32),
        forall|j: int| k <= j < s.len() ==> (s[j] == 0 || s[j] == 32),
        k > 0 ==> !(s[k - 1] == 0 || s[k - 1] == 32),
    ensures
        trim_field(s) == s.take(k),
    decreases s.len() - k,
{
    if k < s.len() {
        assert(s.drop_last().take(k) == s.take(k));
        if k == 0 {
            assert(s.len() > 0 && s[0] == s[k]);
        }
        assert forall|j: int| k <= j < s.len() - 1 implies (s.drop_last()[j] == 0
            || s.drop_last()[j] == 32) by {
            assert(s.drop_last()[j] == s[j]);
        }
        if s.drop_last().len() > 0 {
            assert(s.drop_last()[0] == s[0]);
        }
        lemma_trim_field_end(s.drop_last(), k);
    } else {
        assert(s.take(k) == s);
        if s.len() > 0 {
            assert(s.last() == s[k - 1]);
        }
    }
}

/// Whether a 512-byte TAR header block holds a valid checksum (see
/// [`spec_tar_header_valid`]).
pub fn tar_header_valid(header: &[u8]) -> (r: bool)
    requires
        header@.len() == 512,
    ensures
        r == spec_tar_header_valid(header@),
{
    let ghost h = header@;
    let ghost field = h.subrange(148, 156);
    // Trim NUL and space from both ends of the checksum field.
    let mut lo: usize = 148;
    while lo < 156 && (header[lo] == 0 || header[lo] == 32)
        invariant
            148 <= lo <= 156,
            header@ == h,
            h.len() == 512,
            forall|j: int| 148 <= j < lo ==> (h[j] == 0 || h[j] == 32),
        decreases 156 - lo,
    {
        lo = lo + 1;
    }
    let mut hi: usize = 156;
    while hi > lo && (header[hi - 1] == 0 || header[hi - 1] == 32)
        invariant
            148 <= lo <= hi <= 156,
            header@ == h,
            h.len() == 512,
            forall|j: int| hi <= j < 156 ==> (h[j] == 0 || h[j] == 32),
        decreases hi,
    {
        hi = hi - 1;
    }
    proof {
        lemma_trim_field_start(field, lo - 148);
        let rest = field.skip(lo - 148);
        if rest.len() > 0 {
            assert(rest[0] == h[lo as int]);
        }
        assert forall|j: int| hi - lo <= j < rest.len() implies (rest[j] == 0 || rest[j] == 32) by {
            assert(rest[j] == h[lo + j]);
        }
        if hi > lo {
            assert(rest[hi - lo - 1] == h[hi - 1]);
        }
        lemma_trim_field_end(rest, hi - lo);
        assert(rest.take(hi - lo) == h.subrange(lo as int, hi as int));
    }
    let ghost digits_all = h.subrange(lo as int, hi as int);
    assert(trim_field(field) == digits_all);
    // An optional plus sign, then at least one octal digit.
    let mut start = lo;
    if start < hi && header[start] == 43 {
        start = start + 1;
    }
    let ghost digits = h.subrange(start as int, hi as int);
    assert(digits == unsigned_digits(digits_all));
    if start == hi {
        return false;
    }
    let mut value: u64 = 0;
    let mut i: usize = start;
    while i < hi
        invariant
            148 <= start <= i <= hi <= 156,
            header@ == h,
            h.len() == 512,
            digits == h.subrange(start as int, hi as int),
            trim_field(h.subrange(148, 156)) == digits_all,
            digits == unsigned_digits(digits_all),
            forall|j: int| start <= j < i ==> is_octal(h[j]),
            value == octal_value(h.subrange(start as int, i as int)),
            value < pow8(i - start),
        decreases hi - i,
    {
        let b = header[i];
        if b < 48 || b > 55 {
            proof {
                let k = i - start;
                assert(0 <= k < digits.len());
                assert(digits[k] == h[i as int]);
                assert(!is_octal(digits[k]));
                assert(!all_octal(digits));
            }
            return false;
        }
        proof {
            let prefix = h.subrange(start as int, i + 1);
            assert(prefix.drop_last() == h.subrange(start as int, i as int));
            assert(prefix.last() == b);
            lemma_pow8_step(i - start);
        }
        value = value * 8 + (b - 48) as u64;
        i = i + 1;
    }
    assert(h.subrange(start as int, hi as int) == digits);
    assert forall|j: int| 0 <= j < digits.len() implies is_octal(#[trigger] digits[j]) by {
        assert(digits[j] == h[start + j]);
    }
    // The checksum counts the checksum field itself as spaces.
    let mut sum: u64 = 0;
    let mut k: usize = 0;
    while k < 512
        invariant
            k <= 512,
            header@ == h,
            h.len() == 512,
            sum == tar_checksum(h, k as int),
        decreases 512 - k,
    {
        proof {
            lemma_tar_checksum_bound(h, k as int);
        }
        if 148 <= k && k < 156 {
            sum = sum + 32;
        } else {
            sum = sum + header[k] as u64;
        }
        k = k + 1;
    }
    value == sum
}

/// Eight to the power `n`.
pub open spec fn pow8(n: int) -> int
    decreases n,
{
    if n <= 0 {
        1
    } else {
        8 * pow8(n - 1)
    }
}

proof fn lemma_pow8_step(n: int)
    requires
        0 <= n < 8,
    ensures
        pow8(n + 1) == 8 * pow8(n),
        pow8(n + 1) <= 16777216,
{
    assert(pow8(0) == 1);
    assert(pow8(1) == 8);
    assert(pow8(2) == 64);
    assert(pow8(3) == 512);
    assert(pow8(4) == 4096);
    assert(pow8(5) == 32768);
    assert(pow8(6) == 262144);
    assert(pow8(7) == 2097152);
    assert(pow8(8) == 16777216);
}

/// Recognises the format of a payload from its first bytes (see [`spec_detect`]).
pub fn detect_bytes(bytes: &[u8]) -> (r: Option<Format>)
    ensures
        r == spec_detect(bytes@),
{
    let zip_local_sig: [u8; 4] = [0x50, 0x4b, 0x03, 0x04];
    let zip_end_sig: [u8; 4] = [0x50, 0x4b, 0x05, 0x06];
    let gzip: [u8; 2] = [0x1f, 0x8b];
    let bzip2: [u8; 3] = [0x42, 0x5a, 0x68];
    let xz: [u8; 6] = [0xfd, 0x37, 0x7a, 0x58, 0x5a, 0x00];
    assert(zip_local_sig@ == zip_local());
    assert(zip_end_sig@ == zip_end());
    assert(gzip@ == gzip_magic());
    assert(bzip2@ == bzip2_magic());
    assert(xz@ == xz_magic());
    if starts_with_bytes(bytes, &zip_local_sig) || starts_with_bytes(bytes, &zip_end_sig) {
        Some(Format::Zip)
    } else if starts_with_bytes(bytes, &gzip) {
        Some(Format::Gzip)
    } else if starts_with_bytes(bytes, &bzip2) {
        Some(Format::Bzip2)
    } else if starts_with_bytes(bytes, &xz) {
        Some(Format::Xz)
    } else if bytes.len() >= 512 && tar_header_valid(first_block(bytes).as_slice()) {
        Some(Format::Tar)
    } else {
        None
    }
}

/// The first 512 bytes of `bytes`.
fn first_block(bytes: &[u8]) -> (out: Vec<u8>)
    requires
        bytes@.len() >= 512,
    ensures
        out@ == bytes@.take(512),
{
    let mut out: Vec<u8> = Vec::new();
    let mut i: usize = 0;
    while i < 512
        invariant
            i <= 512 <= bytes@.len(),
            out@ == bytes@.take(i as int),
        decreases 512 - i,
    {
        out.push(bytes[i]);
        assert(bytes@.take(i + 1) == bytes@.take(i as int).push(bytes@[i as int]));
        i = i + 1;
    }
    out
}

/// A little-endian 16-bit field at `at`.
pub open spec fn spec_le16(b: Seq<u8>, at: int) -> int {
    b[at] + b[at + 1] * 256
}

/// A little-endian 32-bit field at `at`.
pub open spec fn spec_le32(b: Seq<u8>, at: int) -> int {
    b[at] + b[at + 1] * 256 + b[at + 2] * 65536 + b[at + 3] * 16777216
}

/// A little-endian 64-bit field at `at`.
pub open spec fn spec_le64(b: Seq<u8>, at: int) -> int {
    b[at] + b[at + 1] * 256 + b[at + 2] * 65536 + b[at + 3] * 16777216 + b[at + 4]
        * 4294967296 + b[at + 5] * 1099511627776 + b[at + 6] * 281474976710656 + b[at + 7]
        * 72057594037927936
}

/// Reads the little-endian 16-bit field at `at`.
pub fn le16(bytes: &[u8], at: usize) -> (r: u16)
    requires
        at + 2 <= bytes@.len(),
    ensures
        r == spec_le16(bytes@, at as int),
{
    bytes[at] as u16 + bytes[at + 1] as u16 * 256
}

/// Reads the little-endian 32-bit field at `at`.
pub fn le32(bytes: &[u8], at: usize) -> (r: u32)
    requires
        at + 4 <= bytes@.len(),
    ensures
        r == spec_le32(bytes@, at as int),
{
    bytes[at] as u32 + bytes[at + 1] as u32 * 256 + bytes[at + 2] as u32 * 65536 + bytes[at
        + 3] as u32 * 16777216
}

/// Reads the little-endian 64-bit field at `at`.
pub fn le64(bytes: &[u8], at: usize) -> (r: u64)
    requires
        at + 8 <= bytes@.len(),
    ensures
        r == spec_le64(bytes@, at as int),
{
    bytes[at] as u64 + bytes[at + 1] as u64 * 256 + bytes[at + 2] as u64 * 65536 + bytes[at
        + 3] as u64 * 16777216 + bytes[at + 4] as u64 * 4294967296 + bytes[at + 5] as u64
        * 1099511627776 + bytes[at + 6] as u64 * 281474976710656 + bytes[at + 7] as u64
        * 72057594037927936
}

/// `s` holds the four bytes of `sig` at `at`.
pub open spec fn sig_at(s: Seq<u8>, at: int, sig: Seq<u8>) -> bool {
    0 <= at && at + 4 <= s.len() && s.subrange(at, at + 4) == sig
}

/// Whether `s` holds the four bytes of `sig` at `at`.
fn has_sig_at(s: &[u8], at: usize, sig: &[u8; 4]) -> (r: bool)
    ensures
        r == sig_at(s@, at as int, sig@),
{
    if at > s.len() || s.len() - at < 4 {
        return false;
    }
    let r = s[at] == sig[0] && s[at + 1] == sig[1] && s[at + 2] == sig[2] && s[at + 3] == sig[3];
    proof {
        if r {
            assert(s@.subrange(at as int, at + 4) =~= sig@);
        } else {
            if s@.subrange(at as int, at + 4) == sig@ {
                assert(s@.subrange(at as int, at + 4)[0] == sig@[0]);
                assert(s@.subrange(at as int, at + 4)[1] == sig@[1]);
                assert(s@.subrange(at as int, at + 4)[2] == sig@[2]);
                assert(s@.subrange(at as int, at + 4)[3] == sig@[3]);
            }
        }
    }
    r
}

/// Most bytes at the end of a ZIP archive that can hold its end record: the
/// record, the longest comment and a ZIP64 locator.
pub open spec fn zip_tail_max() -> int {
    65577int
}

/// The bytes at the end of a ZIP archive that are searched for its end record.
pub open spec fn zip_tail(data: Seq<u8>) -> Seq<u8> {
    if data.len() <= zip_tail_max() {
        data
    } else {
        data.skip(data.len() - zip_tail_max())
    }
}

/// A complete end record at `at` whose comment reaches exactly the end.
pub open spec fn is_footer_at(tail: Seq<u8>, at: int) -> bool {
    sig_at(tail, at, zip_end()) && at + 22 <= tail.len() && at + 22 + spec_le16(tail, at + 20)
        == tail.len()
}

/// The last end record that starts before `n`, or -1.
pub open spec fn last_footer(tail: Seq<u8>, n: int) -> int
    decreases n,
{
    if n <= 0 {
        -1
    } else if is_footer_at(tail, n - 1) {
        n - 1
    } else {
        last_footer(tail, n - 1)
    }
}

/// The positions searched for the end record of a tail.
pub open spec fn footer_candidates(tail: Seq<u8>) -> int {
    if tail.len() > 21 {
        tail.len() - 21
    } else {
        0
    }
}

/// An end record that may refer to a ZIP64 end record.
pub open spec fn may_be_zip64(b: Seq<u8>, at: int) -> bool {
    spec_le16(b, at + 10) == 0xffff || spec_le32(b, at + 12) == 0xffffffff || spec_le32(b, at + 16)
        == 0xffffffff
}

/// The entry count of a ZIP64 end record, found through the locator before
/// the end record at `f` of the tail.
pub open spec fn zip64_count(data: Seq<u8>, tail: Seq<u8>, f: int) -> Result<int, ArchiveError> {
    zip64_count_at(data, tail.subrange(f - 20, f))
}

/// The entry count of the ZIP64 end record that the locator `loc` points to.
pub open spec fn zip64_count_at(data: Seq<u8>, loc: Seq<u8>) -> Result<int, ArchiveError> {
    let off = spec_le64(loc, 8);
    if spec_le32(loc, 4) != 0 || spec_le32(loc, 16) != 1 {
        Err(ArchiveError::SplitArchive)
    } else if off + 56 > data.len() {
        Err(ArchiveError::Zip64Invalid)
    } else {
        let header = data.subrange(off, off + 56);
        if !sig_at(header, 0, zip64_end()) || spec_le64(header, 4) < 44 || spec_le64(header, 4)
            > MAX_METADATA {
            Err(ArchiveError::Zip64Invalid)
        } else if spec_le32(header, 16) != 0 || spec_le32(header, 20) != 0 || spec_le64(header, 24)
            != spec_le64(header, 32) {
            Err(ArchiveError::SplitArchive)
        } else {
            Ok(spec_le64(header, 32))
        }
    }
}

/// The entry count declared by the end record of a ZIP archive.
pub open spec fn declared_count(data: Seq<u8>) -> Result<int, ArchiveError> {
    let tail = zip_tail(data);
    let f = last_footer(tail, footer_candidates(tail));
    if f < 0 {
        Err(ArchiveError::NoEndRecord)
    } else if spec_le16(tail, f + 4) != 0 || spec_le16(tail, f + 6) != 0 {
        Err(ArchiveError::SplitArchive)
    } else if spec_le16(tail, f + 10) != spec_le16(tail, f + 8) {
        Err(ArchiveError::InconsistentCounts)
    } else if may_be_zip64(tail, f) && f >= 20 && sig_at(tail, f - 20, zip64_locator()) {
        zip64_count(data, tail, f)
    } else {
        Ok(spec_le16(tail, f + 10))
    }
}

/// An end record at `p` that a ZIP reader could fall back to, declaring more
/// entries than `limit`.
pub open spec fn end_record_violation(data: Seq<u8>, p: int, limit: int) -> bool {
    &&& p + 22 <= data.len()
    &&& sig_at(data, p, zip_end())
    &&& p + 22 + spec_le16(data, p + 20) <= data.len()
    &&& !(may_be_zip64(data, p) && p >= 20 && sig_at(data, p - 20, zip64_locator()))
    &&& spec_le16(data, p + 4) == spec_le16(data, p + 6)
    &&& spec_le16(data, p + 8) > limit
}

/// `a + b`, saturating at the largest `u64`.
pub open spec fn sat_add(a: int, b: int) -> int {
    if a + b > u64::MAX {
        u64::MAX as int
    } else {
        a + b
    }
}

/// A complete ZIP64 end record at `p` that exceeds the metadata or entry limit.
pub open spec fn zip64_record_violation(data: Seq<u8>, p: int, limit: int) -> bool {
    &&& p + 56 <= data.len()
    &&& sig_at(data, p, zip64_end())
    &&& spec_le64(data, p + 4) >= 40
    &&& sat_add(spec_le64(data, p + 4), 12) <= data.len() - p
    &&& (spec_le64(data, p + 4) > MAX_METADATA || spec_le64(data, p + 32) > limit)
}

/// The first violation among the end records starting before `n`.
pub open spec fn first_violation(data: Seq<u8>, limit: int, n: int) -> Option<ArchiveError>
    decreases n,
{
    if n <= 0 {
        None
    } else if first_violation(data, limit, n - 1) is Some {
        first_violation(data, limit, n - 1)
    } else if end_record_violation(data, n - 1, limit) {
        Some(ArchiveError::EndRecordLimit)
    } else if zip64_record_violation(data, n - 1, limit) {
        Some(ArchiveError::Zip64Limit)
    } else {
        None
    }
}

/// How many entries a ZIP archive holds, once its end records are checked
/// against the entry and metadata limits.
pub open spec fn spec_zip_entry_count(data: Seq<u8>, limit: int) -> Result<int, ArchiveError> {
    match declared_count(data) {
        Err(e) => Err(e),
        Ok(c) => if c > limit {
            Err(ArchiveError::TooManyEntries)
        } else {
            match first_violation(data, limit, data.len() as int) {
                Some(e) => Err(e),
                None => Ok(c),
            }
        },
    }
}

/// The bytes `data[from..to]`.
pub fn bytes_between(data: &[u8], from: usize, to: usize) -> (out: Vec<u8>)
    requires
        from <= to <= data@.len(),
    ensures
        out@ == data@.subrange(from as int, to as int),
{
    let mut out: Vec<u8> = Vec::new();
    let mut i: usize = from;
    while i < to
        invariant
            from <= i <= to <= data@.len(),
            out@ == data@.subrange(from as int, i as int),
        decreases to - i,
    {
        out.push(data[i]);
        assert(data@.subrange(from as int, i + 1) == data@.subrange(from as int, i as int).push(
            data@[i as int],
        ));
        i = i + 1;
    }
    out
}

proof fn lemma_first_violation_stays(data: Seq<u8>, limit: int, n: int, m: int)
    requires
        0 <= n <= m,
        first_violation(data, limit, n) is Some,
    ensures
        first_violation(data, limit, m) == first_violation(data, limit, n),
    decreases m - n,
{
    if m > n {
        lemma_first_violation_stays(data, limit, n, m - 1);
    }
}

fn end_record_violation_at(data: &[u8], p: usize, limit: usize) -> (r: bool)
    ensures
        r == end_record_violation(data@, p as int, limit as int),
{
    let n = data.len();
    let end_sig: [u8; 4] = [0x50, 0x4b, 0x05, 0x06];
    let locator_sig: [u8; 4] = [0x50, 0x4b, 0x06, 0x07];
    assert(end_sig@ == zip_end());
    assert(locator_sig@ == zip64_locator());
    if p > n || n - p < 22 || !has_sig_at(data, p, &end_sig) {
        return false;
    }
    let comment = le16(data, p + 20) as usize;
    if n - p - 22 < comment {
        return false;
    }
    let may64 = le16(data, p + 10) == 0xffff || le32(data, p + 12) == 0xffffffff || le32(
        data,
        p + 16,
    ) == 0xffffffff;
    let uses_zip64 = may64 && p >= 20 && has_sig_at(data, p - 20, &locator_sig);
    !uses_zip64 && le16(data, p + 4) == le16(data, p + 6) && le16(data, p + 8) as usize > limit
}

fn zip64_record_violation_at(data: &[u8], p: usize, limit: usize) -> (r: bool)
    ensures
        r == zip64_record_violation(data@, p as int, limit as int),
{
    let n = data.len();
    let sig: [u8; 4] = [0x50, 0x4b, 0x06, 0x06];
    assert(sig@ == zip64_end());
    if p > n || n - p < 56 || !has_sig_at(data, p, &sig) {
        return false;
    }
    let size = le64(data, p + 4);
    let padded = if size > u64::MAX - 12 {
        u64::MAX
    } else {
        size + 12
    };
    let complete = size >= 40 && padded <= (n - p) as u64;
    complete && (size > 1048576 || le64(data, p + 32) > limit as u64)
}

/// Checks every end record and ZIP64 end record in `data`, complete ones
/// anywhere, including inside stored ZIP resources: a ZIP reader retries
/// earlier records after a malformed directory, so none may exceed the limits.
pub fn validate_zip_end_records(data: &[u8], limit: usize) -> (r: Result<(), ArchiveError>)
    ensures
        match first_violation(data@, limit as int, data@.len() as int) {
            Some(e) => r == Err::<(), ArchiveError>(e),
            None => r is Ok,
        },
{
    let n = data.len();
    let mut p: usize = 0;
    while p < n
        invariant
            p <= n == data@.len(),
            first_violation(data@, limit as int, p as int) is None,
        decreases n - p,
    {
        if end_record_violation_at(data, p, limit) {
            proof {
                lemma_first_violation_stays(data@, limit as int, p + 1, n as int);
            }
            return Err(ArchiveError::EndRecordLimit);
        }
        if zip64_record_violation_at(data, p, limit) {
            proof {
                lemma_first_violation_stays(data@, limit as int, p + 1, n as int);
            }
            return Err(ArchiveError::Zip64Limit);
        }
        p = p + 1;
    }
    Ok(())
}

/// Finds the last complete end record of a ZIP tail (see [`last_footer`]).
fn find_footer(tail: &[u8]) -> (r: Option<usize>)
    ensures
        match r {
            Some(f) => last_footer(tail@, footer_candidates(tail@)) == f && f + 22 <= tail@.len(),
            None => last_footer(tail@, footer_candidates(tail@)) < 0,
        },
{
    let end_sig: [u8; 4] = [0x50, 0x4b, 0x05, 0x06];
    assert(end_sig@ == zip_end());
    let len = tail.len();
    let mut n: usize = if len > 21 {
        len - 21
    } else {
        0
    };
    while n > 0
        invariant
            n <= footer_candidates(tail@),
            len == tail@.len(),
            end_sig@ == zip_end(),
            last_footer(tail@, footer_candidates(tail@)) == last_footer(tail@, n as int),
        decreases n,
    {
        let at = n - 1;
        if has_sig_at(tail, at, &end_sig) && at + 22 <= len {
            let comment = le16(tail, at + 20) as usize;
            if comment == len - at - 22 {
                return Some(at);
            }
        }
        n = n - 1;
    }
    None
}

/// The entry count of the ZIP64 end record that the locator `loc` points to
/// (see [`zip64_count`]).
fn zip64_entry_count(data: &[u8], loc: &[u8]) -> (r: Result<u64, ArchiveError>)
    requires
        loc@.len() == 20,
    ensures
        match r {
            Ok(c) => zip64_count_at(data@, loc@) == Ok::<int, ArchiveError>(c as int),
            Err(e) => zip64_count_at(data@, loc@) == Err::<int, ArchiveError>(e),
        },
{
    let n = data.len();
    if le32(loc, 4) != 0 || le32(loc, 16) != 1 {
        return Err(ArchiveError::SplitArchive);
    }
    let off = le64(loc, 8);
    if off > n as u64 || (n as u64) - off < 56 {
        return Err(ArchiveError::Zip64Invalid);
    }
    let off = off as usize;
    let header = bytes_between(data, off, off + 56);
    let record_sig: [u8; 4] = [0x50, 0x4b, 0x06, 0x06];
    assert(record_sig@ == zip64_end());
    let size = le64(header.as_slice(), 4);
    if !has_sig_at(header.as_slice(), 0, &record_sig) || size < 44 || size > 1048576 {
        return Err(ArchiveError::Zip64Invalid);
    }
    if le32(header.as_slice(), 16) != 0 || le32(header.as_slice(), 20) != 0 || le64(
        header.as_slice(),
        24,
    ) != le64(header.as_slice(), 32) {
        return Err(ArchiveError::SplitArchive);
    }
    Ok(le64(header.as_slice(), 32))
}

/// The entry count an end record declares (see [`declared_count`]).
fn declared_entry_count(data: &[u8]) -> (r: Result<u64, ArchiveError>)
    ensures
        match r {
            Ok(c) => declared_count(data@) == Ok::<int, ArchiveError>(c as int),
            Err(e) => declared_count(data@) == Err::<int, ArchiveError>(e),
        },
{
    let n = data.len();
    let base = if n > 65577 {
        n - 65577
    } else {
        0
    };
    let tail = bytes_between(data, base, n);
    assert(tail@ == zip_tail(data@));
    let f = match find_footer(tail.as_slice()) {
        Some(f) => f,
        None => return Err(ArchiveError::NoEndRecord),
    };
    if le16(tail.as_slice(), f + 4) != 0 || le16(tail.as_slice(), f + 6) != 0 {
        return Err(ArchiveError::SplitArchive);
    }
    let count16 = le16(tail.as_slice(), f + 10);
    if count16 != le16(tail.as_slice(), f + 8) {
        return Err(ArchiveError::InconsistentCounts);
    }
    let locator_sig: [u8; 4] = [0x50, 0x4b, 0x06, 0x07];
    assert(locator_sig@ == zip64_locator());
    let may64 = count16 == 0xffff || le32(tail.as_slice(), f + 12) == 0xffffffff || le32(
        tail.as_slice(),
        f + 16,
    ) == 0xffffffff;
    if may64 && f >= 20 && has_sig_at(tail.as_slice(), f - 20, &locator_sig) {
        let loc = bytes_between(tail.as_slice(), f - 20, f);
        zip64_entry_count(data, loc.as_slice())
    } else {
        Ok(count16 as u64)
    }
}

/// How many entries a ZIP archive declares (see [`spec_zip_entry_count`]).
///
/// A ZIP reader allocates its index before it can be asked for the entry
/// count, so the declared count and ZIP64 metadata are bounded first.
pub fn zip_entry_count(data: &[u8], limit: usize) -> (r: Result<usize, ArchiveError>)
    ensures
        match spec_zip_entry_count(data@, limit as int) {
            Ok(c) => r == Ok::<usize, ArchiveError>(c as usize),
            Err(e) => r == Err::<usize, ArchiveError>(e),
        },
        spec_zip_entry_count(data@, limit as int) matches Ok(c) ==> 0 <= c <= limit,
{
    let count = declared_entry_count(data)?;
    if count > limit as u64 {
        return Err(ArchiveError::TooManyEntries);
    }
    validate_zip_end_records(data, limit)?;
    Ok(count as usize)
}

/// A Unicode control character (general category Cc).
pub open spec fn is_control(c: char) -> bool {
    (c as u32) <= 0x1f || (0x7f <= (c as u32) && (c as u32) <= 0x9f)
}

/// The names of a list of path components, without empty and `.` ones.
pub open spec fn normal_pieces(ps: Seq<Seq<char>>) -> Seq<Seq<char>>
    decreases ps.len(),
{
    if ps.len() == 0 {
        Seq::<Seq<char>>::empty()
    } else if ps.last().len() == 0 || ps.last() == seq!['.'] {
        normal_pieces(ps.drop_last())
    } else {
        normal_pieces(ps.drop_last()).push(ps.last())
    }
}

/// The components an archive entry named `name` (of `bytes` UTF-8 bytes)
/// extracts to: no absolute path, no `..`, no `\`, `:` or control character,
/// at most 64 components and 4096 bytes.
pub open spec fn spec_safe_path(name: Seq<char>, bytes: int) -> Result<
    Seq<Seq<char>>,
    ArchiveError,
> {
    let pieces = split(name, '/');
    if name.contains('\\') || name.contains(':') || exists|i: int|
        0 <= i < name.len() && is_control(#[trigger] name[i]) {
        Err(ArchiveError::UnsafePath)
    } else if name.len() > 0 && name[0] == '/' {
        Err(ArchiveError::UnsafePath)
    } else if exists|i: int| 0 <= i < pieces.len() && #[trigger] pieces[i] == seq!['.', '.'] {
        Err(ArchiveError::UnsafePath)
    } else if normal_pieces(pieces).len() > 64 || bytes > 4096 {
        Err(ArchiveError::PathTooLong)
    } else {
        Ok(normal_pieces(pieces))
    }
}

/// The components result with text read as character sequences.
pub open spec fn path_result_view(r: Result<Vec<String>, ArchiveError>) -> Result<
    Seq<Seq<char>>,
    ArchiveError,
> {
    match r {
        Ok(v) => Ok(v@.map_values(|s: String| s@)),
        Err(e) => Err(e),
    }
}

/// The relative path an archive entry extracts to, as its components (see
/// [`spec_safe_path`]).
pub fn safe_path(name: &str) -> (r: Result<Vec<String>, ArchiveError>)
    ensures
        path_result_view(r) == spec_safe_path(name@, name.len() as int),
{
    let byte_len = name.len();
    let text = chars_of(name);
    let mut i: usize = 0;
    while i < text.len()
        invariant
            i <= text@.len(),
            text@ == name@,
            forall|j: int| 0 <= j < i ==> !is_control(#[trigger] text@[j]) && text@[j] != '\\'
                && text@[j] != ':',
        decreases text@.len() - i,
    {
        let c = text[i];
        let code: u32 = c as u32;
        if c == '\\' || c == ':' || code <= 0x1f || (0x7f <= code && code <= 0x9f) {
            proof {
                if c == '\\' {
                    assert(name@.contains('\\'));
                } else if c == ':' {
                    assert(name@.contains(':'));
                } else {
                    assert(is_control(name@[i as int]));
                }
            }
            return Err(ArchiveError::UnsafePath);
        }
        i = i + 1;
    }
    assert(!name@.contains('\\') && !name@.contains(':'));
    if text.len() > 0 && text[0] == '/' {
        return Err(ArchiveError::UnsafePath);
    }
    let pieces = split_on(text.as_slice(), '/');
    let ghost ps = views(pieces@);
    let mut out: Vec<String> = Vec::new();
    let mut k: usize = 0;
    while k < pieces.len()
        invariant
            k <= ps.len(),
            ps == views(pieces@),
            ps == split(name@, '/'),
            forall|j: int| 0 <= j < k ==> #[trigger] ps[j] != seq!['.', '.'],
            out@.map_values(|s: String| s@) == normal_pieces(ps.take(k as int)),
        decreases ps.len() - k,
    {
        let piece = &pieces[k];
        assert(piece@ == ps[k as int]);
        let ghost t = ps.take(k + 1);
        assert(t.drop_last() == ps.take(k as int));
        assert(t.last() == piece@);
        let dot = piece.len() == 1 && piece[0] == '.';
        let dots = piece.len() == 2 && piece[0] == '.' && piece[1] == '.';
        if dots {
            assert(piece@ =~= seq!['.', '.']);
            return Err(ArchiveError::UnsafePath);
        }
        assert(piece@ != seq!['.', '.']) by {
            if piece@.len() == 2 {
                assert(piece@[0] != '.' || piece@[1] != '.');
            }
        }
        if piece.len() == 0 || dot {
            if dot {
                assert(piece@ =~= seq!['.']);
            }
        } else {
            assert(piece@ != seq!['.']) by {
                if piece@.len() == 1 {
                    assert(piece@[0] != '.');
                }
            }
            let ghost before = out@;
            out.push(string_of(piece.as_slice()));
            assert(out@.map_values(|s: String| s@) =~= before.map_values(|s: String| s@).push(
                piece@,
            ));
        }
        k = k + 1;
    }
    assert(ps.take(ps.len() as int) == ps);
    assert(!(exists|j: int| 0 <= j < ps.len() && #[trigger] ps[j] == seq!['.', '.']));
    assert(!(exists|j: int| 0 <= j < name@.len() && is_control(#[trigger] name@[j])));
    assert(out@.map_values(|s: String| s@).len() == out@.len());
    if out.len() > 64 || byte_len > 4096 {
        return Err(ArchiveError::PathTooLong);
    }
    Ok(out)
}

/// Whether the TAR record at `index` may precede extraction: within the entry
/// limit, and no metadata record larger than [`MAX_METADATA`].
///
/// TAR long-name and PAX records are normally consumed before an entry is
/// yielded; raw records are inspected first so that metadata cannot bypass
/// the count and memory limits.
pub fn check_tar_record(index: usize, entry_limit: usize, is_file: bool, is_dir: bool, size: u64) -> (r:
    Result<(), ArchiveError>)
    ensures
        r == (if index >= entry_limit {
            Err::<(), ArchiveError>(ArchiveError::TooManyEntries)
        } else if !is_file && !is_dir && size > MAX_METADATA {
            Err(ArchiveError::MetadataTooLarge)
        } else {
            Ok(())
        }),
{
    if index >= entry_limit {
        Err(ArchiveError::TooManyEntries)
    } else if !is_file && !is_dir && size > MAX_METADATA {
        Err(ArchiveError::MetadataTooLarge)
    } else {
        Ok(())
    }
}

/// The file-type bits of a Unix mode.
pub open spec fn mode_kind(mode: u32) -> u32 {
    mode & 0o170000
}

/// Whether a ZIP entry's Unix mode names a regular file or a directory (or
/// records no type).
pub fn zip_mode_allowed(mode: u32) -> (r: bool)
    ensures
        r == (mode_kind(mode) == 0 || mode_kind(mode) == 0o100000 || mode_kind(mode) == 0o040000),
{
    let kind = mode & 0o170000;
    kind == 0 || kind == 0o100000 || kind == 0o040000
}

/// Two stored ranges overlap when one starts inside another.
pub open spec fn ranges_overlap(r: Seq<(u64, u64)>) -> bool {
    exists|i: int, j: int|
        0 <= i < r.len() && 0 <= j < r.len() && i != j && (#[trigger] r[i]).0 <= (#[trigger] r[j]).0
            && r[i].1 > r[j].0
}

/// The byte range of an entry's compressed data.
pub fn zip_data_range(start: u64, size: u64) -> (r: Result<(u64, u64), ArchiveError>)
    ensures
        match r {
            Ok((s, e)) => s == start && e == start + size,
            Err(e) => start + size > u64::MAX && e == ArchiveError::InvalidRange,
        },
{
    if size > u64::MAX - start {
        Err(ArchiveError::InvalidRange)
    } else {
        Ok((start, start + size))
    }
}

/// Checks a ZIP directory before extraction: it holds the `declared` number
/// of entries, and the non-empty compressed data `ranges` do not overlap.
pub fn check_zip_index(declared: usize, actual: usize, ranges: &[(u64, u64)]) -> (r: Result<
    (),
    ArchiveError,
>)
    ensures
        r == (if declared != actual {
            Err::<(), ArchiveError>(ArchiveError::DuplicateEntries)
        } else if ranges_overlap(ranges@) {
            Err(ArchiveError::OverlappingData)
        } else {
            Ok(())
        }),
{
    if declared != actual {
        return Err(ArchiveError::DuplicateEntries);
    }
    let n = ranges.len();
    let mut i: usize = 0;
    while i < n
        invariant
            i <= n == ranges@.len(),
            declared == actual,
            forall|a: int, b: int|
                0 <= a < i && 0 <= b < n && a != b ==> !((#[trigger] ranges@[a]).0 <= (
                #[trigger] ranges@[b]).0 && ranges@[a].1 > ranges@[b].0),
        decreases n - i,
    {
        let mut j: usize = 0;
        while j < n
            invariant
                i < n == ranges@.len(),
                j <= n,
                declared == actual,
                forall|a: int, b: int|
                    0 <= a < i && 0 <= b < n && a != b ==> !((#[trigger] ranges@[a]).0 <= (
                    #[trigger] ranges@[b]).0 && ranges@[a].1 > ranges@[b].0),
                forall|b: int|
                    0 <= b < j && b != i ==> !(ranges@[i as int].0 <= (#[trigger] ranges@[b]).0
                        && ranges@[i as int].1 > ranges@[b].0),
            decreases n - j,
        {
            if j != i && ranges[i].0 <= ranges[j].0 && ranges[i].1 > ranges[j].0 {
                assert(ranges@[i as int].0 <= ranges@[j as int].0 && ranges@[i as int].1
                    > ranges@[j as int].0);
                assert(ranges_overlap(ranges@));
                return Err(ArchiveError::OverlappingData);
            }
            j = j + 1;
        }
        i = i + 1;
    }
    Ok(())
}

/// What extraction does with an entry.
#[derive(Debug, Clone, Copy, PartialEq, Eq, Structural)]
pub enum EntryAction {
    /// Create the directory.
    Directory,
    /// Write the file, within the expansion budget.
    File,
}

/// A TAR entry is a directory or a regular file; links and special entries
/// are refused.
pub fn tar_entry_action(is_dir: bool, is_file: bool) -> (r: Result<EntryAction, ArchiveError>)
    ensures
        r == (if is_dir {
            Ok::<EntryAction, ArchiveError>(EntryAction::Directory)
        } else if is_file {
            Ok(EntryAction::File)
        } else {
            Err(ArchiveError::UnsupportedEntry)
        }),
{
    if is_dir {
        Ok(EntryAction::Directory)
    } else if is_file {
        Ok(EntryAction::File)
    } else {
        Err(ArchiveError::UnsupportedEntry)
    }
}

/// A ZIP entry whose Unix mode (0 when it records none) names a regular
/// file or a directory is created as the entry says; any other is refused.
pub fn zip_entry_action(mode: u32, is_dir: bool) -> (r: Result<EntryAction, ArchiveError>)
    ensures
        r == (if !(mode_kind(mode) == 0 || mode_kind(mode) == 0o100000 || mode_kind(mode)
            == 0o040000) {
            Err::<EntryAction, ArchiveError>(ArchiveError::UnsupportedEntry)
        } else if is_dir {
            Ok(EntryAction::Directory)
        } else {
            Ok(EntryAction::File)
        }),
{
    if !zip_mode_allowed(mode) {
        Err(ArchiveError::UnsupportedEntry)
    } else if is_dir {
        Ok(EntryAction::Directory)
    } else {
        Ok(EntryAction::File)
    }
}

/// The permissions an extracted file gets: readable by all, writable by
/// its owner, executable as the archive says.
pub fn file_permissions(mode: u32) -> (r: u32)
    ensures
        r == (0o644u32 | (mode & 0o111u32)),
{
    0o644 | (mode & 0o111)
}

proof fn lemma_split_pieces_free_of(s: Seq<char>, c: char)
    ensures
        forall|i: int, j: int|
            0 <= i < split(s, c).len() && 0 <= j < split(s, c)[i].len() ==> #[trigger] split(
                s,
                c,
            )[i][j] != c,
    decreases s.len(),
{
    if s.len() > 0 {
        lemma_split_pieces_free_of(s.drop_last(), c);
        let pieces = split(s.drop_last(), c);
        assert(pieces.len() > 0) by {
            lemma_split_nonempty(s.drop_last(), c);
        }
        if s.last() != c {
            let last = pieces.last().push(s.last());
            assert forall|i: int, j: int|
                0 <= i < split(s, c).len() && 0 <= j < split(s, c)[i].len() implies #[trigger] split(
                s,
                c,
            )[i][j] != c by {
                if i == pieces.len() - 1 {
                    assert(split(s, c)[i] == last);
                    if j < pieces.last().len() {
                        assert(last[j] == pieces[i][j]);
                    }
                } else {
                    assert(split(s, c)[i] == pieces[i]);
                }
            }
        } else {
            assert forall|i: int, j: int|
                0 <= i < split(s, c).len() && 0 <= j < split(s, c)[i].len() implies #[trigger] split(
                s,
                c,
            )[i][j] != c by {
                if i < pieces.len() {
                    assert(split(s, c)[i] == pieces[i]);
                }
            }
        }
    }
}

proof fn lemma_split_nonempty(s: Seq<char>, c: char)
    ensures
        split(s, c).len() > 0,
    decreases s.len(),
{
    if s.len() > 0 {
        lemma_split_nonempty(s.drop_last(), c);
    }
}

proof fn lemma_normal_pieces_from(ps: Seq<Seq<char>>)
    ensures
        forall|i: int|
            0 <= i < normal_pieces(ps).len() ==> #[trigger] normal_pieces(ps)[i].len() > 0
                && normal_pieces(ps)[i] != seq!['.'] && exists|j: int|
                0 <= j < ps.len() && ps[j] == normal_pieces(ps)[i],
    decreases ps.len(),
{
    if ps.len() > 0 {
        lemma_normal_pieces_from(ps.drop_last());
        let rest = normal_pieces(ps.drop_last());
        assert forall|i: int| 0 <= i < normal_pieces(ps).len() implies #[trigger] normal_pieces(
            ps,
        )[i].len() > 0 && normal_pieces(ps)[i] != seq!['.'] && exists|j: int|
            0 <= j < ps.len() && ps[j] == normal_pieces(ps)[i] by {
            if i < rest.len() {
                assert(normal_pieces(ps)[i] == rest[i]);
                let j = choose|j: int| 0 <= j < ps.drop_last().len() && ps.drop_last()[j] == rest[i];
                assert(ps[j] == ps.drop_last()[j]);
            } else {
                assert(normal_pieces(ps)[i] == ps.last());
                assert(ps[ps.len() - 1] == ps.last());
            }
        }
    }
}

/// Every component of an accepted archive path is a plain name: not empty,
/// not `.` or `..`, holding no separator, backslash, colon or control
/// character; there are at most 64 of them.
pub proof fn law_safe_path_components(name: Seq<char>, bytes: int)
    ensures
        spec_safe_path(name, bytes) matches Ok(parts) ==> parts.len() <= 64 && forall|i: int|
            0 <= i < parts.len() ==> {
                &&& #[trigger] parts[i].len() > 0
                &&& parts[i] != seq!['.']
                &&& parts[i] != seq!['.', '.']
                &&& forall|j: int|
                    0 <= j < parts[i].len() ==> parts[i][j] != '/' && parts[i][j] != '\\'
                        && parts[i][j] != ':' && !is_control(parts[i][j])
            },
{
    let pieces = split(name, '/');
    lemma_normal_pieces_from(pieces);
    lemma_split_pieces_free_of(name, '/');
    lemma_split_chars_from(name, '/');
    if spec_safe_path(name, bytes) is Ok {
        let parts = normal_pieces(pieces);
        assert forall|i: int| 0 <= i < parts.len() implies {
            &&& #[trigger] parts[i].len() > 0
            &&& parts[i] != seq!['.']
            &&& parts[i] != seq!['.', '.']
            &&& forall|j: int|
                0 <= j < parts[i].len() ==> parts[i][j] != '/' && parts[i][j] != '\\'
                    && parts[i][j] != ':' && !is_control(parts[i][j])
        } by {
            let k = choose|k: int| 0 <= k < pieces.len() && pieces[k] == parts[i];
            assert forall|j: int| 0 <= j < parts[i].len() implies parts[i][j] != '/' && parts[i][j]
                != '\\' && parts[i][j] != ':' && !is_control(parts[i][j]) by {
                assert(pieces[k][j] != '/');
                assert(name.contains(pieces[k][j]));
            }
        }
    }
}

proof fn lemma_split_chars_from(s: Seq<char>, c: char)
    ensures
        forall|i: int, j: int|
            0 <= i < split(s, c).len() && 0 <= j < split(s, c)[i].len() ==> s.contains(
                #[trigger] split(s, c)[i][j],
            ),
    decreases s.len(),
{
    if s.len() > 0 {
        lemma_split_chars_from(s.drop_last(), c);
        let pieces = split(s.drop_last(), c);
        lemma_split_nonempty(s.drop_last(), c);
        assert forall|i: int, j: int|
            0 <= i < split(s, c).len() && 0 <= j < split(s, c)[i].len() implies s.contains(
            #[trigger] split(s, c)[i][j],
        ) by {
            let x = split(s, c)[i][j];
            if s.last() != c && i == pieces.len() - 1 && j == pieces.last().len() {
                assert(x == s.last());
                assert(s[s.len() - 1] == x);
            } else {
                if s.last() != c && i == pieces.len() - 1 {
                    assert(x == pieces[i][j]);
                } else if i < pieces.len() {
                    assert(x == pieces[i][j]);
                }
                assert(s.drop_last().contains(x));
                let k = choose|k: int| 0 <= k < s.drop_last().len() && s.drop_last()[k] == x;
                assert(s[k] == x);
            }
        }
    }
}

/// A ZIP archive is accepted only with at most `limit` entries, and only
/// when no end record that a parser could fall back on declares more.
pub proof fn law_zip_count_within_limit(data: Seq<u8>, limit: int)
    ensures
        spec_zip_entry_count(data, limit) matches Ok(n) ==> n <= limit && first_violation(
            data,
            limit,
            data.len() as int,
        ) is None,
{
}

/// The entry count of an accepted ZIP archive is the total that its end
/// record declares, read from the ZIP64 end record when a ZIP64 locator
/// precedes an end record that defers to it. An archive without a complete
/// end record, one split over several disks, one whose end record gives two
/// different counts, and one declaring more than `limit` entries are refused.
pub proof fn law_zip_entry_count(data: Seq<u8>, limit: int)
    ensures
        ({
            let tail = zip_tail(data);
            let f = last_footer(tail, footer_candidates(tail));
            let split_disks = spec_le16(tail, f + 4) != 0 || spec_le16(tail, f + 6) != 0;
            let deferred = may_be_zip64(tail, f) && f >= 20 && sig_at(tail, f - 20, zip64_locator());
            &&& f < 0 ==> spec_zip_entry_count(data, limit) == Err::<int, ArchiveError>(
                ArchiveError::NoEndRecord,
            )
            &&& f >= 0 && split_disks ==> spec_zip_entry_count(data, limit) == Err::<
                int,
                ArchiveError,
            >(ArchiveError::SplitArchive)
            &&& f >= 0 && !split_disks && spec_le16(tail, f + 10) != spec_le16(tail, f + 8)
                ==> spec_zip_entry_count(data, limit) == Err::<int, ArchiveError>(
                ArchiveError::InconsistentCounts,
            )
            &&& declared_count(data) matches Ok(c) ==> (c > limit ==> spec_zip_entry_count(
                data,
                limit,
            ) == Err::<int, ArchiveError>(ArchiveError::TooManyEntries))
            &&& spec_zip_entry_count(data, limit) matches Ok(n) ==> {
                &&& 0 <= n <= limit
                &&& f >= 0 && !split_disks
                &&& deferred ==> zip64_count(data, tail, f) == Ok::<int, ArchiveError>(n)
                &&& !deferred ==> n == spec_le16(tail, f + 10) && n == spec_le16(tail, f + 8)
            }
        }),
{
}

} // verus!
