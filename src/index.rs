//! The sorted index segment and the binary search over it.
use vstd::prelude::*;

use crate::error::PhoneError;
use crate::util::{as_signed32, le_value, u8_i32};

verus! {

/// Width in bytes of one index entry.
pub const ENTRY_SIZE: usize = 9;

/// One entry of the index segment.
#[derive(Debug, Clone, Copy, PartialEq, Eq)]
pub struct IndexData {
    /// Decimal value of a seven-digit phone prefix.
    pub phone_prefix: i32,
    /// Absolute file offset of the entry's record.
    pub offset: i32,
    /// Carrier code.
    pub isp: u8,
}

/// Number of whole entries in an index segment.
pub open spec fn entry_count(index: Seq<u8>) -> int {
    index.len() as int / 9
}

/// The signed little-endian 32-bit value at byte position `pos`.
pub open spec fn i32_at(index: Seq<u8>, pos: int) -> int {
    as_signed32(le_value(index.subrange(pos, pos + 4)))
}

/// The prefix of entry `i`.
pub open spec fn prefix_at(index: Seq<u8>, i: int) -> int {
    i32_at(index, 9 * i)
}

/// Entry `i` of the index, decoded.
pub open spec fn entry_at(index: Seq<u8>, i: int) -> IndexData {
    IndexData {
        phone_prefix: prefix_at(index, i) as i32,
        offset: i32_at(index, 9 * i + 4) as i32,
        isp: index[9 * i + 8],
    }
}

/// The entries' prefixes are strictly ascending.
pub open spec fn index_sorted(index: Seq<u8>) -> bool {
    forall|i: int, j: int|
        0 <= i < j < entry_count(index) ==> #[trigger] prefix_at(index, i) < #[trigger] prefix_at(
            index,
            j,
        )
}

/// Some entry of the index carries `prefix`.
pub open spec fn has_prefix(index: Seq<u8>, prefix: int) -> bool {
    exists|i: int| 0 <= i < entry_count(index) && #[trigger] prefix_at(index, i) == prefix
}

fn read_i32(index: &[u8], pos: usize) -> (r: i32)
    requires
        pos + 4 <= index@.len(),
    ensures
        r as int == i32_at(index@, pos as int),
{
    let len = index.len();
    assert(pos + 4 <= len);
    u8_i32(&index[pos..pos + 4])
}

/// Binary search of the index segment for `prefix`.
///
/// An empty segment is `Uninitialized`. A returned entry always carries
/// `prefix`; on a sorted segment, nothing is returned exactly when no entry
/// carries it.
pub fn find(index: &[u8], prefix: i32) -> (r: Result<Option<IndexData>, PhoneError>)
    ensures
        index@.len() == 0 <==> r is Err,
        r is Err ==> r->Err_0 is Uninitialized,
        r matches Ok(Some(e)) ==> exists|i: int|
            0 <= i < entry_count(index@) && #[trigger] prefix_at(index@, i) == prefix && e
                == entry_at(index@, i),
        index@.len() > 0 && index_sorted(index@) ==> (r matches Ok(None) <==> !has_prefix(
            index@,
            prefix as int,
        )),
{
    if index.len() == 0 {
        return Err(PhoneError::Uninitialized);
    }
    let len = index.len();
    let n: usize = len / ENTRY_SIZE;
    if n == 0 {
        return Ok(None);
    }
    let ghost s = index@;
    let mut start: usize = 0;
    let mut end: usize = n - 1;
    let mut position: Option<usize> = None;
    loop
        invariant_except_break
            position is None,
            start <= end,
        invariant
            n == entry_count(s),
            s == index@,
            len == s.len(),
            n >= 1,
            start <= end + 1,
            end < n,
            index_sorted(s) ==> forall|i: int| 0 <= i < start ==> #[trigger] prefix_at(s, i) < prefix,
            index_sorted(s) ==> forall|i: int| end < i < n ==> #[trigger] prefix_at(s, i) > prefix,
        ensures
            position matches Some(p) ==> p < n && prefix_at(s, p as int) == prefix,
            position is None ==> (index_sorted(s) ==> !has_prefix(s, prefix as int)),
        decreases end - start,
    {
        let mid = start + (end - start) / 2;
        assert(mid * 9 + 9 <= s.len()) by (nonlinear_arith)
            requires
                mid < n,
                n == s.len() as int / 9,
        ;
        let p = read_i32(index, mid * ENTRY_SIZE);
        if p > prefix {
            if mid == 0 {
                assert(index_sorted(s) ==> forall|i: int| 0 <= i < n ==> #[trigger] prefix_at(s, i) > prefix) by {
                    if index_sorted(s) {
                        assert forall|i: int| 0 <= i < n implies #[trigger] prefix_at(s, i) > prefix by {
                            if i > 0 {
                                assert(prefix_at(s, 0) < prefix_at(s, i));
                            }
                        }
                    }
                }
                break;
            }
            assert(index_sorted(s) ==> forall|i: int| mid - 1 < i < n ==> #[trigger] prefix_at(s, i) > prefix) by {
                if index_sorted(s) {
                    assert forall|i: int| mid - 1 < i < n implies #[trigger] prefix_at(s, i) > prefix by {
                        if i > mid && i <= end {
                            assert(prefix_at(s, mid as int) < prefix_at(s, i));
                        }
                    }
                }
            }
            end = mid - 1;
        } else if p == prefix {
            position = Some(mid);
            break;
        } else {
            assert(index_sorted(s) ==> forall|i: int| 0 <= i < mid + 1 ==> #[trigger] prefix_at(s, i) < prefix) by {
                if index_sorted(s) {
                    assert forall|i: int| 0 <= i < mid + 1 implies #[trigger] prefix_at(s, i) < prefix by {
                        if i < mid && i >= start {
                            assert(prefix_at(s, i) < prefix_at(s, mid as int));
                        }
                    }
                }
            }
            start = mid + 1;
        }
        if start > end {
            break;
        }
    }
    match position {
        Some(pos) => {
            assert(pos * 9 + 9 <= s.len()) by (nonlinear_arith)
                requires
                    pos < n,
                    n == s.len() as int / 9,
            ;
            let base = pos * ENTRY_SIZE;
            let phone_prefix = read_i32(index, base);
            let offset = read_i32(index, base + 4);
            let isp = index[base + 8];
            Ok(Some(IndexData { phone_prefix, offset, isp }))
        },
        None => Ok(None),
    }
}

} // verus!
