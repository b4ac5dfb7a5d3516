//! Which device images the store's parser reads without fault: byte-level
//! conditions on the v3 bank headers and records, and on the v1/v2
//! partition sections.

use vstd::prelude::*;

verus! {

/// Size of one bank of the device image.
pub const BANK_LEN: usize = 0x10000;

/// Size of the header of a v3 variable record.
pub const RECORD_HEADER_LEN: usize = 36;

/// The little-endian 16-bit integer at `i`.
pub open spec fn le16(d: Seq<u8>, i: int) -> int {
    d[i] as int + 256 * d[i + 1] as int
}

/// The little-endian 32-bit integer at `i`.
pub open spec fn le32(d: Seq<u8>, i: int) -> int {
    le16(d, i) + 65536 * le16(d, i + 2)
}

/// The bank at `o` starts with a v3 store header (signature `3VVN`, version 1).
pub open spec fn v3_header_at(d: Seq<u8>, o: int) -> bool {
    d[o] == 0x33 && d[o + 1] == 0x56 && d[o + 2] == 0x56 && d[o + 3] == 0x4e && d[o + 14] == 1
}

/// The 36 bytes at `p` are all `0x00` or `0xFF`: the end of the records.
pub open spec fn erased_at(d: Seq<u8>, p: int) -> bool {
    forall|j: int| 0 <= j < 36 ==> #[trigger] d[p + j] == 0 || d[p + j] == 0xFF
}

/// The v3 records of the bank at `o`, from offset `off` on, each have a name
/// of at least its terminating byte and sizes whose sum fits in 32 bits.
pub open spec fn records_ok(d: Seq<u8>, o: int, off: int) -> bool
    decreases 0x10000 - off,
{
    if off < 0 || off + 36 >= 0x10000 {
        true
    } else if erased_at(d, o + off) {
        true
    } else if le16(d, o + off) != 0x55AA {
        true
    } else {
        let n = le32(d, o + off + 8);
        let s = le32(d, o + off + 12);
        n + s <= 0xFFFF_FFFF && (36 + n + s > 0x10000 - off || (n >= 1 && records_ok(
            d,
            o,
            off + 36 + n + s,
        )))
    }
}

/// The bank with index `i`, if it has a v3 header, declares the full bank
/// size, a generation from 1 with room to grow, and sound records.
pub open spec fn bank_ok(d: Seq<u8>, i: int) -> bool {
    let o = i * 0x10000;
    v3_header_at(d, o) ==> le32(d, o + 4) == 0x10000 && 1 <= le32(d, o + 8) < 0xFFFF_0000
        && records_ok(d, o, 24)
}

/// The partition at `o` is named `nvram`, as the v1/v2 layout has it.
pub open spec fn named_nvram(d: Seq<u8>, o: int) -> bool {
    d[o + 4] == 0x6e && d[o + 5] == 0x76 && d[o + 6] == 0x72 && d[o + 7] == 0x61 && d[o + 8]
        == 0x6d && forall|j: int| 9 <= j < 16 ==> #[trigger] d[o + j] == 0
}

/// Every `0xFF` that is followed by a byte is followed by a nonzero count.
pub open spec fn escapes_ok(v: Seq<u8>) -> bool {
    forall|i: int| 0 <= i < v.len() - 1 && #[trigger] v[i] == 0xFF ==> v[i + 1] % 128 != 0
}

/// The v1/v2 partition at `o`, if named `nvram`, has both section headers
/// inside the image, a generation with room to grow, and well-formed escapes
/// in everything the section parser may read, which runs to the image's end.
pub open spec fn partition_ok(d: Seq<u8>, o: int) -> bool {
    named_nvram(d, o) ==> {
        let s1 = 16 * le16(d, o + 34);
        o + 32 + s1 + 16 <= d.len() && {
            let s2 = 16 * le16(d, o + 32 + s1 + 2);
            o + 32 + s1 + s2 <= d.len() && le32(d, o + 20) < 0xFFFF_0000 && escapes_ok(
                d.subrange(o + 32, d.len() as int),
            )
        }
    }
}

/// The image holds a v1/v2 partition candidate.
pub open spec fn v1v2_candidate(d: Seq<u8>) -> bool {
    named_nvram(d, 0) || named_nvram(d, 0x10000)
}

/// The image holds a v3 bank header.
pub open spec fn v3_candidate(d: Seq<u8>) -> bool {
    exists|i: int| 0 <= i < d.len() / 0x10000 && #[trigger] v3_header_at(d, i * 0x10000)
}

/// The image is one the store's parser reads without fault: two banks at
/// least, one layout only, and sound headers, records and sections.
pub open spec fn image_ok(d: Seq<u8>) -> bool {
    &&& d.len() >= 0x20000
    &&& !(v1v2_candidate(d) && v3_candidate(d))
    &&& forall|i: int| 0 <= i < d.len() / 0x10000 ==> #[trigger] bank_ok(d, i)
    &&& partition_ok(d, 0)
    &&& partition_ok(d, 0x10000)
}

fn le16_at(d: &[u8], i: usize) -> (r: u64)
    requires
        i + 1 < d@.len(),
    ensures
        r == le16(d@, i as int),
{
    d[i] as u64 + 256 * d[i + 1] as u64
}

fn le32_at(d: &[u8], i: usize) -> (r: u64)
    requires
        i + 3 < d@.len(),
    ensures
        r == le32(d@, i as int),
{
    let len = d.len();
    le16_at(d, i) + 65536 * le16_at(d, i + 2)
}

fn erased_check(d: &[u8], p: usize) -> (r: bool)
    requires
        p + 36 <= d@.len(),
    ensures
        r == erased_at(d@, p as int),
{
    let len = d.len();
    let mut j: usize = 0;
    while j < 36
        invariant
            p + 36 <= d@.len(),
            len == d@.len(),
            j <= 36,
            forall|k: int| 0 <= k < j ==> #[trigger] d@[p + k] == 0 || d@[p + k] == 0xFF,
        decreases 36 - j,
    {
        if d[p + j] != 0 && d[p + j] != 0xFF {
            return false;
        }
        j = j + 1;
    }
    true
}

fn records_check(d: &[u8], o: usize) -> (r: bool)
    requires
        o + 0x10000 <= d@.len(),
    ensures
        r == records_ok(d@, o as int, 24),
{
    let len = d.len();
    let mut off: usize = 24;
    while off + 36 < 0x10000
        invariant
            o + 0x10000 <= d@.len(),
            len == d@.len(),
            24 <= off <= 0x10000,
            records_ok(d@, o as int, 24) == records_ok(d@, o as int, off as int),
        decreases 0x10000 - off,
    {
        if erased_check(d, o + off) {
            return true;
        }
        if le16_at(d, o + off) != 0x55AA {
            return true;
        }
        let n = le32_at(d, o + off + 8);
        let s = le32_at(d, o + off + 12);
        if n + s > 0xFFFF_FFFF {
            return false;
        }
        if 36 + n + s > (0x10000 - off) as u64 {
            return true;
        }
        if n < 1 {
            return false;
        }
        off = off + 36 + (n + s) as usize;
    }
    true
}

fn bank_check(d: &[u8], i: usize) -> (r: (bool, bool))
    requires
        i * 0x10000 + 0x10000 <= d@.len(),
    ensures
        r.0 == bank_ok(d@, i as int),
        r.1 == v3_header_at(d@, i * 0x10000),
{
    let len = d.len();
    assert(i * 0x10000 <= len);
    let o = i * BANK_LEN;
    let header = d[o] == 0x33 && d[o + 1] == 0x56 && d[o + 2] == 0x56 && d[o + 3] == 0x4e && d[o
        + 14] == 1;
    if !header {
        return (true, false);
    }
    let size = le32_at(d, o + 4);
    let generation = le32_at(d, o + 8);
    (size == 0x10000 && 1 <= generation && generation < 0xFFFF_0000 && records_check(d, o), true)
}

pub(crate) fn escapes_check(d: &[u8], from: usize, to: usize) -> (r: bool)
    requires
        from <= to <= d@.len(),
    ensures
        r == escapes_ok(d@.subrange(from as int, to as int)),
{
    let len = d.len();
    let ghost v = d@.subrange(from as int, to as int);
    let mut i: usize = from;
    while to - i > 1
        invariant
            from <= i <= to,
            len == d@.len(),
            from <= to <= d@.len(),
            v == d@.subrange(from as int, to as int),
            forall|k: int| 0 <= k < i - from && k < v.len() - 1 && #[trigger] v[k] == 0xFF ==> v[k + 1] % 128 != 0,
        decreases to - i,
    {
        if d[i] == 0xFF && d[i + 1] % 128 == 0 {
            assert(v[i - from] == 0xFF && v[i - from + 1] % 128 == 0);
            return false;
        }
        i = i + 1;
    }
    true
}

pub(crate) fn named_check(d: &[u8], o: usize) -> (r: bool)
    requires
        o + 16 <= d@.len(),
    ensures
        r == named_nvram(d@, o as int),
{
    let len = d.len();
    if !(d[o + 4] == 0x6e && d[o + 5] == 0x76 && d[o + 6] == 0x72 && d[o + 7] == 0x61 && d[o + 8]
        == 0x6d) {
        return false;
    }
    let mut j: usize = 9;
    while j < 16
        invariant
            o + 16 <= d@.len(),
            len == d@.len(),
            9 <= j <= 16,
            forall|k: int| 9 <= k < j ==> #[trigger] d@[o + k] == 0,
        decreases 16 - j,
    {
        if d[o + j] != 0 {
            return false;
        }
        j = j + 1;
    }
    true
}

fn partition_check(d: &[u8], o: usize) -> (r: (bool, bool))
    requires
        o + 0x10000 <= d@.len(),
    ensures
        r.0 == partition_ok(d@, o as int),
        r.1 == named_nvram(d@, o as int),
{
    if !named_check(d, o) {
        return (true, false);
    }
    let n = d.len();
    let s1 = 16 * le16_at(d, o + 34) as usize;
    if s1 + 48 > n - o {
        return (false, true);
    }
    let s2 = 16 * le16_at(d, o + 32 + s1 + 2) as usize;
    if s1 + s2 + 32 > n - o {
        return (false, true);
    }
    if le32_at(d, o + 20) >= 0xFFFF_0000 {
        return (false, true);
    }
    (escapes_check(d, o + 32, n), true)
}

/// Whether the store's parser reads `d` without fault.
pub fn image_check(d: &[u8]) -> (r: bool)
    ensures
        r == image_ok(d@),
{
    let n = d.len();
    if n < 0x20000 {
        return false;
    }
    let count = n / BANK_LEN;
    let mut i: usize = 0;
    let mut any_v3 = false;
    while i < count
        invariant
            n == d@.len(),
            count == n / 0x10000,
            i <= count,
            forall|k: int| 0 <= k < i ==> #[trigger] bank_ok(d@, k),
            any_v3 == exists|k: int| 0 <= k < i && #[trigger] v3_header_at(d@, k * 0x10000),
        decreases count - i,
    {
        assert(i * 0x10000 + 0x10000 <= n) by (nonlinear_arith)
            requires
                i < count,
                count == n / 0x10000,
        ;
        let (ok, header) = bank_check(d, i);
        if !ok {
            return false;
        }
        if header {
            assert(v3_header_at(d@, i * 0x10000));
        }
        any_v3 = any_v3 || header;
        i = i + 1;
    }
    let (ok0, named0) = partition_check(d, 0);
    let (ok1, named1) = partition_check(d, BANK_LEN);
    ok0 && ok1 && !((named0 || named1) && any_v3)
}

} // verus!
