//! Primitive reads from a byte buffer: little-endian integers, raw byte runs,
//! and the scan for a terminating zero byte.

use vstd::prelude::*;

verus! {

/// Little-endian 16-bit value at `p`.
pub open spec fn le16(b: Seq<u8>, p: int) -> u16
    recommends
        0 <= p,
        p + 2 <= b.len(),
{
    (b[p] + 256 * b[p + 1]) as u16
}

/// Little-endian 32-bit value at `p`.
pub open spec fn le32(b: Seq<u8>, p: int) -> u32
    recommends
        0 <= p,
        p + 4 <= b.len(),
{
    (b[p] + 256 * b[p + 1] + 65536 * b[p + 2] + 16777216 * b[p + 3]) as u32
}

/// Little-endian 64-bit value at `p`.
pub open spec fn le64(b: Seq<u8>, p: int) -> u64
    recommends
        0 <= p,
        p + 8 <= b.len(),
{
    (b[p] + 256 * b[p + 1] + 65536 * b[p + 2] + 16777216 * b[p + 3] + 4294967296 * b[p + 4]
        + 1099511627776 * b[p + 5] + 281474976710656 * b[p + 6] + 72057594037927936 * b[p
        + 7]) as u64
}

pub fn read_u16(b: &[u8], p: usize) -> (r: u16)
    requires
        p + 2 <= b@.len(),
    ensures
        r == le16(b@, p as int),
{
    (b[p] as u16) + 256 * (b[p + 1] as u16)
}

pub fn read_u32(b: &[u8], p: usize) -> (r: u32)
    requires
        p + 4 <= b@.len(),
    ensures
        r == le32(b@, p as int),
{
    (b[p] as u32) + 256 * (b[p + 1] as u32) + 65536 * (b[p + 2] as u32) + 16777216 * (b[p
        + 3] as u32)
}

pub fn read_u64(b: &[u8], p: usize) -> (r: u64)
    requires
        p + 8 <= b@.len(),
    ensures
        r == le64(b@, p as int),
{
    (b[p] as u64) + 256 * (b[p + 1] as u64) + 65536 * (b[p + 2] as u64) + 16777216 * (b[p
        + 3] as u64) + 4294967296 * (b[p + 4] as u64) + 1099511627776 * (b[p + 5] as u64)
        + 281474976710656 * (b[p + 6] as u64) + 72057594037927936 * (b[p + 7] as u64)
}

/// Copies `b[p .. p + n]` into an owned buffer.
pub fn read_bytes(b: &[u8], p: usize, n: usize) -> (r: Vec<u8>)
    requires
        p + n <= b@.len(),
    ensures
        r@ == b@.subrange(p as int, p + n),
{
    let blen: usize = b.len();
    let mut out: Vec<u8> = Vec::new();
    let mut i: usize = 0;
    while i < n
        invariant
            i <= n,
            p + n <= blen,
            blen == b@.len(),
            out@ =~= b@.subrange(p as int, p + i),
        decreases n - i,
    {
        out.push(b[p + i]);
        i = i + 1;
    }
    out
}

/// Position of the first zero byte at or after `p`, if any.
pub open spec fn scan_nul(b: Seq<u8>, p: int) -> Option<int>
    decreases b.len() - p,
{
    if p < 0 || p >= b.len() {
        None
    } else if b[p] == 0 {
        Some(p)
    } else {
        scan_nul(b, p + 1)
    }
}

/// Finds the first zero byte at or after `p`.
pub fn find_nul(b: &[u8], p: usize) -> (r: Option<usize>)
    requires
        p <= b@.len(),
    ensures
        match r {
            Some(q) => p <= q < b@.len() && scan_nul(b@, p as int) == Some(q as int),
            None => scan_nul(b@, p as int) is None,
        },
{
    let mut i: usize = p;
    while i < b.len()
        invariant
            p <= i <= b@.len(),
            scan_nul(b@, p as int) == scan_nul(b@, i as int),
        decreases b@.len() - i,
    {
        if b[i] == 0 {
            return Some(i);
        }
        i = i + 1;
    }
    None
}

/// Byte-wise equality of two slices.
pub fn bytes_eq(a: &[u8], b: &[u8]) -> (r: bool)
    ensures
        r <==> a@ =~= b@,
{
    if a.len() != b.len() {
        return false;
    }
    let mut i: usize = 0;
    while i < a.len()
        invariant
            i <= a@.len(),
            a@.len() == b@.len(),
            forall|j: int| 0 <= j < i ==> a@[j] == b@[j],
        decreases a@.len() - i,
    {
        if a[i] != b[i] {
            return false;
        }
        i = i + 1;
    }
    true
}

} // verus!
