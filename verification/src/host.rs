//! Node and zone identity: checking and decoding the raw buffers that the
//! host-name and zone-name queries fill in. These queries are assumptions
//! the rest of a system depends on, so every way they can go wrong is
//! reported as a non-continuable failure rather than an ordinary error.

use vstd::prelude::*;

verus! {

use vstd::utf8::{valid_utf8, decode_utf8};
use crate::text::try_decode;
use crate::error::IdError;

/// The size of the buffer a zone-name query fills, terminator included.
pub const ZONENAME_MAX: usize = 64;

/// The bytes standing before the first NUL, or nothing when the buffer
/// holds no NUL at all.
pub open spec fn before_nul(b: Seq<u8>) -> Option<Seq<u8>>
    decreases b.len(),
{
    if b.len() == 0 {
        None
    } else if b[0] == 0 {
        Some(Seq::<u8>::empty())
    } else {
        match before_nul(b.drop_first()) {
            Option::None => None,
            Option::Some(p) => Some(seq![b[0]] + p),
        }
    }
}

/// A scan that finds no NUL before position `k` pins `before_nul` down:
/// no NUL anywhere means there is no prefix, and a NUL at `k` makes the
/// bytes up to `k` the prefix.
proof fn lemma_before_nul(b: Seq<u8>, k: int)
    requires
        0 <= k <= b.len(),
        forall|j: int| 0 <= j < k ==> b[j] != 0,
        k < b.len() ==> b[k] == 0,
    ensures
        k == b.len() ==> before_nul(b) is None,
        k < b.len() ==> before_nul(b) == Some(b.take(k)),
    decreases k,
{
    if k == 0 {
        if k < b.len() {
            assert(b.take(0) =~= Seq::<u8>::empty());
        }
    } else {
        let t = b.drop_first();
        lemma_before_nul(t, k - 1);
        if k < b.len() {
            assert(seq![b[0]] + t.take(k - 1) =~= b.take(k));
        }
    }
}

/// Extract the node name from the buffer a host-name query filled: the
/// bytes before the first NUL, decoded. A buffer with no terminator, or
/// one whose name is not valid text, is a failure of the environment and
/// is reported as non-continuable.
pub fn nodename_from_bytes(buf: &[u8]) -> (r: Result<String, IdError>)
    ensures
        match before_nul(buf@) {
            Option::None => r == Err::<String, IdError>(IdError::Unrecoverable),
            Option::Some(p) => {
                &&& valid_utf8(p) ==> (r matches Ok(s) && s@ == decode_utf8(p))
                &&& !valid_utf8(p) ==> r == Err::<String, IdError>(IdError::Unrecoverable)
            },
        },
{
    let n = buf.len();
    let mut k: usize = 0;
    while k < n && buf[k] != 0
        invariant
            k <= n,
            n == buf@.len(),
            forall|j: int| 0 <= j < k ==> buf@[j] != 0,
        decreases n - k,
    {
        k += 1;
    }
    proof {
        lemma_before_nul(buf@, k as int);
    }
    if k == n {
        return Err(IdError::Unrecoverable);
    }
    let head = vstd::slice::slice_subrange(buf, 0, k);
    proof {
        assert(buf@.subrange(0, k as int) =~= buf@.take(k as int));
    }
    match try_decode(head) {
        Some(s) => Ok(s),
        None => Err(IdError::Unrecoverable),
    }
}

/// A zone-name buffer is well terminated when its last byte, and no
/// other, is the NUL terminator.
pub open spec fn well_terminated(b: Seq<u8>) -> bool {
    &&& b.len() >= 1
    &&& b[b.len() - 1] == 0
    &&& forall|j: int| 0 <= j < b.len() - 1 ==> b[j] != 0
}

/// Check and decode what a zone-name query produced: `sz` is the length
/// the call reported, and `buf` the buffer it filled. A reported length
/// that cannot fit the buffer, a prefix that is not NUL-terminated in its
/// last byte alone, or a name that is not valid text, each make the zone
/// identity unusable, a non-continuable failure.
pub fn zonename_from_raw(buf: &[u8], sz: isize) -> (r: Result<String, IdError>)
    requires
        buf@.len() == ZONENAME_MAX,
    ensures
        !(0 <= sz <= ZONENAME_MAX) ==> r == Err::<String, IdError>(IdError::Unrecoverable),
        0 <= sz <= ZONENAME_MAX ==> {
            let b = buf@.take(sz as int);
            &&& !well_terminated(b) ==> r == Err::<String, IdError>(IdError::Unrecoverable)
            &&& well_terminated(b) && !valid_utf8(b.drop_last()) ==> r == Err::<
                String,
                IdError,
            >(IdError::Unrecoverable)
            &&& well_terminated(b) && valid_utf8(b.drop_last()) ==> (r matches Ok(s) && s@
                == decode_utf8(b.drop_last()))
        },
{
    if sz < 0 || sz > ZONENAME_MAX as isize {
        return Err(IdError::Unrecoverable);
    }
    let szu = sz as usize;
    let ghost b = buf@.take(sz as int);
    if szu == 0 {
        return Err(IdError::Unrecoverable);
    }
    if buf[szu - 1] != 0 {
        return Err(IdError::Unrecoverable);
    }
    let mut j: usize = 0;
    while j < szu - 1
        invariant
            j <= szu - 1,
            szu == sz,
            0 < szu <= buf@.len(),
            b == buf@.take(sz as int),
            forall|t: int| 0 <= t < j ==> buf@[t] != 0,
        decreases szu - 1 - j,
    {
        if buf[j] == 0 {
            proof {
                assert(b[j as int] == 0);
                assert(!well_terminated(b));
            }
            return Err(IdError::Unrecoverable);
        }
        j += 1;
    }
    proof {
        assert(b[sz - 1] == buf@[sz - 1]);
        assert(well_terminated(b));
    }
    let head = vstd::slice::slice_subrange(buf, 0, szu - 1);
    proof {
        assert(buf@.subrange(0, sz - 1) =~= b.drop_last());
    }
    match try_decode(head) {
        Some(s) => Ok(s),
        None => Err(IdError::Unrecoverable),
    }
}

} // verus!
