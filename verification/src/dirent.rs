//! Raw directory-record decoding.
//!
//! The Linux enumeration backend reads batches of raw records whose
//! layout is fixed: inode (8 bytes), stream offset (8), record length
//! (2, little-endian), entry type (1), then the NUL-terminated name.
//! The byte-offset arithmetic must be exact, so the field readers live
//! here with contracts that pin every byte; the backend's read loop in
//! the embedding only hands the buffer over.

use vstd::prelude::*;

verus! {

/// The little-endian 16-bit value at `off`.
pub open spec fn le16_at(buf: Seq<u8>, off: int) -> int {
    buf[off] + 256 * buf[off + 1]
}

/// The little-endian 64-bit value at `off`.
pub open spec fn le64_at(buf: Seq<u8>, off: int) -> int {
    buf[off] + 0x100 * buf[off + 1] + 0x10000 * buf[off + 2] + 0x1000000 * buf[off + 3]
        + 0x100000000 * buf[off + 4] + 0x10000000000 * buf[off + 5] + 0x1000000000000 * buf[off
        + 6] + 0x100000000000000 * buf[off + 7]
}

/// The record length of the record starting at `off`: the 16-bit field
/// at byte 16.
pub fn dirent_reclen(buf: &[u8], off: usize) -> (r: usize)
    requires
        off + 18 <= buf@.len(),
    ensures
        r == le16_at(buf@, off + 16),
{
    let n = buf.len();
    proof {
        assert(buf@.len() == n as int);
    }
    let lo = *vstd::slice::slice_index_get(buf, off + 16) as usize;
    let hi = *vstd::slice::slice_index_get(buf, off + 17) as usize;
    lo + 256 * hi
}

/// The entry-type byte of the record starting at `off`: byte 18.
pub fn dirent_dtype(buf: &[u8], off: usize) -> (r: u8)
    requires
        off + 19 <= buf@.len(),
    ensures
        r == buf@[off as int + 18],
{
    let n = buf.len();
    proof {
        assert(buf@.len() == n as int);
    }
    *vstd::slice::slice_index_get(buf, off + 18)
}

/// The directory-stream offset of the record starting at `off`: the
/// 64-bit field at byte 8, the value a resumed enumeration seeks to.
pub fn dirent_d_off(buf: &[u8], off: usize) -> (r: u64)
    requires
        off + 16 <= buf@.len(),
    ensures
        r == le64_at(buf@, off + 8),
{
    let n = buf.len();
    proof {
        assert(buf@.len() == n as int);
    }
    let b0 = *vstd::slice::slice_index_get(buf, off + 8) as u64;
    let b1 = *vstd::slice::slice_index_get(buf, off + 9) as u64;
    let b2 = *vstd::slice::slice_index_get(buf, off + 10) as u64;
    let b3 = *vstd::slice::slice_index_get(buf, off + 11) as u64;
    let b4 = *vstd::slice::slice_index_get(buf, off + 12) as u64;
    let b5 = *vstd::slice::slice_index_get(buf, off + 13) as u64;
    let b6 = *vstd::slice::slice_index_get(buf, off + 14) as u64;
    let b7 = *vstd::slice::slice_index_get(buf, off + 15) as u64;
    b0 + 0x100 * b1 + 0x10000 * b2 + 0x1000000 * b3 + 0x100000000 * b4 + 0x10000000000 * b5
        + 0x1000000000000 * b6 + 0x100000000000000 * b7
}

/// The name length of the record starting at `off`: bytes from 19 up to
/// the first NUL, never reaching past the record length.
pub fn dirent_name_len(buf: &[u8], off: usize, reclen: usize) -> (r: usize)
    requires
        19 <= reclen,
        off + reclen <= buf@.len(),
    ensures
        r + 19 <= reclen,
        forall|j: int| off + 19 <= j < off + 19 + r ==> #[trigger] buf@[j] != 0,
        r + 19 < reclen ==> buf@[off + 19 + r] == 0,
{
    let n = buf.len();
    proof {
        assert(buf@.len() == n as int);
    }
    let mut len: usize = 0;
    while 19 + len < reclen
        invariant
            19 <= reclen,
            off + reclen <= buf@.len(),
            buf@.len() <= usize::MAX,
            len + 19 <= reclen,
            forall|j: int| off + 19 <= j < off + 19 + len ==> #[trigger] buf@[j] != 0,
        decreases reclen - len,
    {
        if *vstd::slice::slice_index_get(buf, off + 19 + len) == 0 {
            return len;
        }
        len = len + 1;
    }
    len
}

/// The name bytes of the record starting at `off`.
pub fn dirent_name_slice<'a>(buf: &'a [u8], off: usize, reclen: usize) -> (r: &'a [u8])
    requires
        19 <= reclen,
        off + reclen <= buf@.len(),
    ensures
        r@.len() + 19 <= reclen,
        r@ == buf@.subrange(off + 19, off + 19 + r@.len()),
        forall|j: int| 0 <= j < r@.len() ==> #[trigger] r@[j] != 0,
        r@.len() + 19 < reclen ==> buf@[off + 19 + r@.len()] == 0,
{
    let n = buf.len();
    proof {
        assert(buf@.len() == n as int);
    }
    let len = dirent_name_len(buf, off, reclen);
    let r = vstd::slice::slice_subrange(buf, off + 19, off + 19 + len);
    proof {
        assert forall|j: int| 0 <= j < r@.len() implies #[trigger] r@[j] != 0 by {
            assert(r@[j] == buf@[off + 19 + j]);
        }
    }
    r
}

} // verus!
