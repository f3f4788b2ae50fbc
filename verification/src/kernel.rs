//! How work is laid out on an accelerator.
use crate::error::Error;
use vstd::prelude::*;

verus! {

/// The number of threads that run in lockstep.
pub const WARP_SIZE: u32 = 32;

/// The blocks and the threads in each block for `len` items of work: blocks of one warp
/// each, as many as it takes to give every item a thread.
pub fn get_nblocks_nthreads(len: u32) -> (r: (u32, u32))
    ensures
        r.1 == WARP_SIZE,
        r.0 == (len + WARP_SIZE - 1) / (WARP_SIZE as int),
        r.0 * WARP_SIZE >= len,
        len > 0 ==> (r.0 - 1) * WARP_SIZE < len,
{
    let nblocks: u32 = if len % WARP_SIZE == 0 {
        len / WARP_SIZE
    } else {
        len / WARP_SIZE + 1
    };
    (nblocks, WARP_SIZE)
}

/// The four extents that describe a tensor of up to four axes to an accelerator library:
/// the axes of the shape, and one for each axis that the shape does not have.
pub open spec fn padded_dims(shape: Seq<usize>) -> Seq<i32> {
    Seq::new(
        4,
        |i: int|
            if i < shape.len() {
                shape[i] as i32
            } else {
                1i32
            },
    )
}

/// Why a shape cannot be described, if it cannot: `Unimplemented` for more than four axes,
/// `TooLarge` for an axis that `i32` cannot hold.
pub open spec fn descriptor_error(shape: Seq<usize>) -> Option<Error> {
    if shape.len() > 4 {
        Some(Error::Unimplemented)
    } else if exists|i: int| 0 <= i < shape.len() && shape[i] > i32::MAX {
        Some(Error::TooLarge)
    } else {
        None
    }
}

/// The four extents that describe a tensor of the given shape to an accelerator library.
pub fn descriptor_dims(shape: &Vec<usize>) -> (r: Result<[i32; 4], Error>)
    ensures
        match r {
            Ok(dims) => descriptor_error(shape@) is None && dims@ == padded_dims(shape@),
            Err(e) => descriptor_error(shape@) == Some(e),
        },
{
    if shape.len() > 4 {
        return Err(Error::Unimplemented);
    }
    let mut dims: [i32; 4] = [1, 1, 1, 1];
    let mut i: usize = 0;
    while i < shape.len()
        invariant
            i <= shape@.len(),
            shape@.len() <= 4,
            forall|j: int| 0 <= j < i ==> (#[trigger] shape@[j]) <= i32::MAX,
            forall|j: int| 0 <= j < i ==> #[trigger] dims@[j] == shape@[j] as i32,
            forall|j: int| i <= j < 4 ==> #[trigger] dims@[j] == 1,
        decreases shape@.len() - i,
    {
        let extent: usize = shape[i];
        if extent > 0x7fff_ffff {
            assert(shape@[i as int] > i32::MAX);
            return Err(Error::TooLarge);
        }
        dims[i] = extent as i32;
        i += 1;
    }
    assert(dims@ =~= padded_dims(shape@));
    Ok(dims)
}

} // verus!
