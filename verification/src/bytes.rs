//! Little-endian field reads and NUL-terminated name handling over byte
//! buffers. All on-disk multi-byte fields in the formats decoded here are
//! little-endian, and names are ASCII, NUL-terminated inside a fixed block.

use vstd::prelude::*;

verus! {

/// Value of the two bytes at `i`, read as a little-endian unsigned 16-bit field.
pub open spec fn le16(b: Seq<u8>, i: int) -> int
    recommends
        0 <= i,
        i + 2 <= b.len(),
{
    b[i] + 0x100 * b[i + 1]
}

/// Value of the four bytes at `i`, read as a little-endian unsigned 32-bit field.
pub open spec fn le32(b: Seq<u8>, i: int) -> int
    recommends
        0 <= i,
        i + 4 <= b.len(),
{
    b[i] + 0x100 * b[i + 1] + 0x10000 * b[i + 2] + 0x1000000 * b[i + 3]
}

/// Reinterpret an unsigned 16-bit value as two's-complement signed.
pub open spec fn as_i16(v: int) -> int
    recommends
        0 <= v < 0x10000,
{
    if v < 0x8000 {
        v
    } else {
        v - 0x10000
    }
}

/// Reinterpret an unsigned 32-bit value as two's-complement signed.
pub open spec fn as_i32(v: int) -> int
    recommends
        0 <= v < 0x100000000,
{
    if v < 0x80000000 {
        v
    } else {
        v - 0x100000000
    }
}

/// Index of the first NUL byte in `b` at or after `i` and before `end`,
/// or `end` if the range holds none.
pub open spec fn nul_scan(b: Seq<u8>, i: int, end: int) -> int
    recommends
        0 <= i <= end <= b.len(),
    decreases end - i,
{
    if i >= end {
        end
    } else if b[i] == 0 {
        i
    } else {
        nul_scan(b, i + 1, end)
    }
}

pub proof fn lemma_nul_scan_bounds(b: Seq<u8>, i: int, end: int)
    requires
        0 <= i <= end <= b.len(),
    ensures
        i <= nul_scan(b, i, end) <= end,
        nul_scan(b, i, end) < end ==> b[nul_scan(b, i, end)] == 0,
        forall|j: int| i <= j < nul_scan(b, i, end) ==> b[j] != 0,
    decreases end - i,
{
    if i < end && b[i] != 0 {
        lemma_nul_scan_bounds(b, i + 1, end);
    }
}

/// ASCII lower-casing of one byte.
pub open spec fn lower_byte(c: u8) -> u8 {
    if 65 <= c <= 90 {
        (c + 32) as u8
    } else {
        c
    }
}

/// ASCII lower-casing of a byte sequence.
pub open spec fn lower_seq(s: Seq<u8>) -> Seq<u8> {
    s.map_values(|c: u8| lower_byte(c))
}

/// Every byte is ASCII (below 128).
pub open spec fn is_ascii_seq(s: Seq<u8>) -> bool {
    forall|j: int| 0 <= j < s.len() ==> s[j] < 128
}

/// The characters spelled by a byte sequence, one character per byte.
pub open spec fn chars_of(s: Seq<u8>) -> Seq<char> {
    s.map_values(|b: u8| b as char)
}

/// No character is an upper-case ASCII letter.
pub open spec fn is_lower_ascii_name(nm: Seq<char>) -> bool {
    forall|i: int| 0 <= i < nm.len() ==> !('A' <= #[trigger] nm[i] && nm[i] <= 'Z')
}

/// A name read out of a block is lower-cased, so it holds no upper-case
/// ASCII letter.
pub proof fn lemma_name_in_block_lowered(b: Seq<u8>, start: int, size: int)
    ensures
        is_lower_ascii_name(name_in_block(b, start, size)),
{
    let nm = name_in_block(b, start, size);
    let raw = b.subrange(start, nul_scan(b, start, start + size));
    assert forall|i: int| 0 <= i < nm.len() implies !('A' <= #[trigger] nm[i] && nm[i]
        <= 'Z') by {
        assert(lower_seq(raw)[i] == lower_byte(raw[i]));
        assert(nm[i] == lower_seq(raw)[i] as char);
        assert(!(65 <= lower_byte(raw[i]) <= 90));
    }
}

/// The text stored NUL-terminated in the block `b[start .. start + size]`,
/// as a character sequence, case kept.
pub open spec fn text_in_block(b: Seq<u8>, start: int, size: int) -> Seq<char>
    recommends
        0 <= start,
        0 <= size,
        start + size <= b.len(),
{
    chars_of(b.subrange(start, nul_scan(b, start, start + size)))
}

/// The name stored NUL-terminated in the block `b[start .. start + size]`,
/// lower-cased, as a character sequence.
pub open spec fn name_in_block(b: Seq<u8>, start: int, size: int) -> Seq<char>
    recommends
        0 <= start,
        0 <= size,
        start + size <= b.len(),
{
    chars_of(lower_seq(b.subrange(start, nul_scan(b, start, start + size))))
}

/// Little-endian unsigned 16-bit read.
pub fn read_u16_le(d: &[u8], i: usize) -> (r: u16)
    requires
        i + 2 <= d@.len(),
    ensures
        r == le16(d@, i as int),
{
    d[i] as u16 + 0x100 * (d[i + 1] as u16)
}

/// Little-endian unsigned 32-bit read.
pub fn read_u32_le(d: &[u8], i: usize) -> (r: u32)
    requires
        i + 4 <= d@.len(),
    ensures
        r == le32(d@, i as int),
{
    d[i] as u32 + 0x100 * (d[i + 1] as u32) + 0x10000 * (d[i + 2] as u32) + 0x1000000 * (d[i
        + 3] as u32)
}

/// Reinterpret an unsigned 16-bit value as two's-complement signed.
pub fn as_i16_exec(v: u16) -> (r: i16)
    ensures
        r as int == as_i16(v as int),
{
    if v < 0x8000 {
        v as i16
    } else {
        -((0xffffu16 - v) as i16) - 1
    }
}

/// Little-endian signed 16-bit read.
pub fn read_i16_le(d: &[u8], i: usize) -> (r: i16)
    requires
        i + 2 <= d@.len(),
    ensures
        r == as_i16(le16(d@, i as int)),
{
    let v: u16 = read_u16_le(d, i);
    if v < 0x8000 {
        v as i16
    } else {
        -((0xffffu16 - v) as i16) - 1
    }
}

/// Little-endian signed 32-bit read.
pub fn read_i32_le(d: &[u8], i: usize) -> (r: i32)
    requires
        i + 4 <= d@.len(),
    ensures
        r == as_i32(le32(d@, i as int)),
{
    let v: u32 = read_u32_le(d, i);
    if v < 0x80000000 {
        v as i32
    } else {
        -((0xffffffffu32 - v) as i32) - 1
    }
}

/// Index of the first NUL byte in `d[i .. end]`, or `end` if there is none.
pub fn scan_nul(d: &[u8], i: usize, end: usize) -> (r: usize)
    requires
        i <= end <= d@.len(),
    ensures
        r == nul_scan(d@, i as int, end as int),
        i <= r <= end,
{
    let mut j: usize = i;
    while j < end
        invariant
            i <= j <= end <= d@.len(),
            nul_scan(d@, i as int, end as int) == nul_scan(d@, j as int, end as int),
        decreases end - j,
    {
        if d[j] == 0 {
            return j;
        }
        j += 1;
    }
    j
}

/// Copy of the bytes `d[a .. b]` as a fresh vector.
pub fn copy_range(d: &[u8], a: usize, b: usize) -> (r: Vec<u8>)
    requires
        a <= b <= d@.len(),
    ensures
        r@ == d@.subrange(a as int, b as int),
{
    let s: &[u8] = &d[a..b];
    vstd::slice::slice_to_vec(s)
}

/// ASCII lower-casing of a byte range, as a fresh vector.
pub fn lower_range(d: &[u8], a: usize, b: usize) -> (r: Vec<u8>)
    requires
        a <= b <= d@.len(),
    ensures
        r@ == lower_seq(d@.subrange(a as int, b as int)),
{
    let mut out: Vec<u8> = Vec::new();
    let mut j: usize = a;
    while j < b
        invariant
            a <= j <= b <= d@.len(),
            out@ == lower_seq(d@.subrange(a as int, j as int)),
        decreases b - j,
    {
        let c: u8 = d[j];
        let low: u8 = if 65 <= c && c <= 90 {
            c + 32
        } else {
            c
        };
        out.push(low);
        j += 1;
        proof {
            assert(d@.subrange(a as int, j as int).drop_last() =~= d@.subrange(
                a as int,
                j - 1,
            ));
            assert(out@ =~= lower_seq(d@.subrange(a as int, j as int)));
        }
    }
    out
}

/// Byte-for-byte equality of two slices.
pub fn eq_bytes(a: &[u8], b: &[u8]) -> (r: bool)
    ensures
        r == (a@ =~= b@),
{
    let n: usize = a.len();
    if n != b.len() {
        return false;
    }
    let mut j: usize = 0;
    while j < n
        invariant
            j <= n,
            n == a@.len() == b@.len(),
            forall|k: int| 0 <= k < j ==> a@[k] == b@[k],
        decreases n - j,
    {
        if a[j] != b[j] {
            return false;
        }
        j += 1;
    }
    true
}

/// Whether every byte in `v` is ASCII.
pub fn check_ascii(v: &[u8]) -> (r: bool)
    ensures
        r == is_ascii_seq(v@),
{
    let n: usize = v.len();
    let mut j: usize = 0;
    while j < n
        invariant
            0 <= j <= n == v@.len(),
            forall|k: int| 0 <= k < j ==> v@[k] < 128,
        decreases n - j,
    {
        if v[j] >= 128 {
            return false;
        }
        j += 1;
    }
    true
}

/// Relies on `String::from_utf8`: ASCII bytes decode to the string whose
/// characters are exactly those bytes.
#[verifier::external_body]
pub fn ascii_to_string(v: Vec<u8>) -> (r: String)
    requires
        is_ascii_seq(v@),
    ensures
        r@ == chars_of(v@),
        r.is_ascii(),
{
    String::from_utf8(v).unwrap_or_default()
}

/// The NUL-terminated ASCII text inside the block `d[start .. start + size]`,
/// case kept; `None` if a byte before the terminator is not ASCII.
pub fn read_text_block(d: &[u8], start: usize, size: usize) -> (r: Option<String>)
    requires
        start + size <= d@.len(),
    ensures
        match r {
            Some(s) => {
                &&& is_ascii_seq(d@.subrange(start as int, nul_scan(d@, start as int, start + size)))
                &&& s@ == text_in_block(d@, start as int, size as int)
                &&& s.is_ascii()
            },
            None => !is_ascii_seq(
                d@.subrange(start as int, nul_scan(d@, start as int, start + size)),
            ),
        },
{
    let n: usize = d.len();
    let limit: usize = start + size;
    let end: usize = scan_nul(d, start, limit);
    let raw: Vec<u8> = copy_range(d, start, end);
    proof {
        lemma_nul_scan_bounds(d@, start as int, start + size);
    }
    if !check_ascii(raw.as_slice()) {
        return None;
    }
    Some(ascii_to_string(raw))
}

/// The lower-cased, NUL-terminated ASCII name inside the block
/// `d[start .. start + size]`; `None` if a byte before the terminator is
/// not ASCII.
pub fn read_name_block(d: &[u8], start: usize, size: usize) -> (r: Option<String>)
    requires
        start + size <= d@.len(),
    ensures
        match r {
            Some(s) => {
                &&& is_ascii_seq(d@.subrange(
                    start as int,
                    nul_scan(d@, start as int, start + size),
                ))
                &&& s@ == name_in_block(d@, start as int, size as int)
                &&& s.is_ascii()
            },
            None => !is_ascii_seq(d@.subrange(
                start as int,
                nul_scan(d@, start as int, start + size),
            )),
        },
{
    let n: usize = d.len();
    let limit: usize = start + size;
    let end: usize = scan_nul(d, start, limit);
    let raw: Vec<u8> = lower_range(d, start, end);
    proof {
        lemma_nul_scan_bounds(d@, start as int, start + size);
    }
    let ghost sub = d@.subrange(start as int, end as int);
    if !check_ascii(raw.as_slice()) {
        proof {
            let j = choose|j: int| 0 <= j < raw@.len() && !(raw@[j] < 128);
            assert(raw@[j] == lower_byte(sub[j]));
            assert(sub[j] >= 128);
        }
        return None;
    }
    proof {
        assert forall|j: int| 0 <= j < sub.len() implies sub[j] < 128 by {
            assert(raw@[j] == lower_byte(sub[j]));
            assert(raw@[j] < 128);
        }
    }
    Some(ascii_to_string(raw))
}

} // verus!
