//! The integer layout of the scene renderer: where each object's uniform block lives in
//! the shared uniform buffer, and the index list of the cube mesh.
use vstd::prelude::*;

verus! {

/// The most objects (the grid included) one scene pass draws.
pub const MAX_OBJECTS: usize = 256;

/// `size` rounded up to a multiple of `alignment`: `size.div_ceil(alignment) * alignment`.
pub open spec fn aligned_size(size: int, alignment: int) -> int {
    (size / alignment + if size % alignment == 0 {
        0int
    } else {
        1int
    }) * alignment
}

/// The distance between consecutive object uniform blocks: the block size rounded up to
/// the device's uniform-offset alignment, which is positive.
pub fn uniform_stride(uniform_size: u64, alignment: u64) -> (r: u64)
    requires
        alignment > 0,
        aligned_size(uniform_size as int, alignment as int) <= u64::MAX,
    ensures
        r == aligned_size(uniform_size as int, alignment as int),
        r >= uniform_size,
        r % alignment == 0,
{
    let q = uniform_size / alignment;
    let rem = uniform_size % alignment;
    proof {
        assert(rem != 0 ==> q < u64::MAX) by (nonlinear_arith)
            requires
                alignment > 0,
                q == uniform_size / alignment,
                rem == uniform_size % alignment,
                uniform_size <= u64::MAX,
        ;
    }
    let blocks = if rem == 0 {
        q
    } else {
        q + 1
    };
    proof {
        let size = uniform_size as int;
        let align = alignment as int;
        let q = size / align;
        let rem = size % align;
        assert(size == q * align + rem && 0 <= rem < align) by (nonlinear_arith)
            requires
                align > 0,
                q == size / align,
                rem == size % align,
        ;
        assert(blocks as int == q + if rem == 0 {
            0int
        } else {
            1int
        });
        assert(blocks * align >= size) by (nonlinear_arith)
            requires
                size == q * align + rem,
                0 <= rem < align,
                blocks == q + if rem == 0 {
                    0int
                } else {
                    1int
                },
        ;
        assert((blocks * align) % align == 0) by (nonlinear_arith)
            requires
                align > 0,
        ;
    }
    blocks * alignment
}

/// The uniform blocks a pass fills: one for the grid when it is shown, then one per object.
/// Returns the slot of the first object and the number of blocks.
pub fn object_slots(object_count: usize, show_grid: bool) -> (r: (usize, usize))
    requires
        object_count + 1 <= usize::MAX,
    ensures
        r.0 == if show_grid {
            1int
        } else {
            0int
        },
        r.1 == object_count + r.0,
{
    let base: usize = if show_grid {
        1
    } else {
        0
    };
    (base, object_count + base)
}

/// The bytes of uniform data a pass stages: `stride` for each block, and room for one
/// block when there are none.
pub fn uniform_bytes_len(stride: u64, block_count: usize) -> (r: u64)
    requires
        block_count <= MAX_OBJECTS,
        stride * MAX_OBJECTS <= u64::MAX,
    ensures
        r == stride * (if block_count >= 1 {
            block_count as int
        } else {
            1int
        }),
{
    let blocks: u64 = if block_count >= 1 {
        block_count as u64
    } else {
        1
    };
    proof {
        assert(stride * blocks <= stride * MAX_OBJECTS) by (nonlinear_arith)
            requires
                blocks <= MAX_OBJECTS,
        ;
    }
    stride * blocks
}

/// The dynamic offset of uniform block `slot`, in the 32 bits a bind-group offset takes;
/// the offset wraps as the `as u32` conversion does.
pub fn object_offset(slot: usize, stride: u64) -> (r: u32)
    requires
        slot * stride <= u64::MAX,
    ensures
        r == #[verifier::truncate] ((slot * stride) as u32),
{
    #[verifier::truncate]
    ((slot as u64 * stride) as u32)
}

/// The corner order of the two triangles of a quad with corners `0..4`.
pub open spec fn quad_corner(k: int) -> int {
    if k == 0 {
        0
    } else if k == 1 {
        1
    } else if k == 2 {
        2
    } else if k == 3 {
        0
    } else if k == 4 {
        2
    } else {
        3
    }
}

/// The index list of a cube of six four-cornered faces, two triangles per face: index
/// `6 * face + k` is `4 * face + quad_corner(k)`.
pub fn cube_indices() -> (r: Vec<u16>)
    ensures
        r@.len() == 36,
        forall|f: int, k: int| 0 <= f < 6 && 0 <= k < 6 ==> #[trigger] r@[6 * f + k] == 4 * f + quad_corner(k),
{
    let mut indices: Vec<u16> = Vec::new();
    let mut face: u16 = 0;
    while face < 6
        invariant
            face <= 6,
            indices@.len() == 6 * face,
            forall|f: int, k: int| 0 <= f < face && 0 <= k < 6 ==> #[trigger] indices@[6 * f + k] == 4 * f + quad_corner(k),
        decreases 6 - face,
    {
        let b: u16 = 4 * face;
        let ghost prev = indices@;
        indices.push(b);
        indices.push(b + 1);
        indices.push(b + 2);
        indices.push(b);
        indices.push(b + 2);
        indices.push(b + 3);
        proof {
            assert forall|f: int, k: int| 0 <= f < face + 1 && 0 <= k < 6 implies #[trigger] indices@[6 * f + k] == 4 * f
                + quad_corner(k) by {
                if f < face {
                    assert(indices@[6 * f + k] == prev[6 * f + k]);
                }
            }
        }
        face = face + 1;
    }
    indices
}

} // verus!
