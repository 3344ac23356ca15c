//! The integer lattice hash under the recipe value noise: wrapping 64-bit
//! mixing of a lattice point and seed, folded to 31 bits. The noise divides the
//! result by `MASK_31` to get a value in `[0, 1]`.

use vstd::prelude::*;

verus! {

/// The 31-bit mask of the lattice hash.
pub const MASK_31: i64 = 0x7fff_ffff;

/// `h = ix*374761393 + iz*668265263 + seed*362437` (wrapping), then
/// `h = (h ^ (h >> 13)) * 1274126177` (wrapping, arithmetic shift), then `h & 0x7fffffff`.
pub open spec fn lattice_hash_spec(ix: i64, iz: i64, seed: i64) -> i64 {
    let h = ix.wrapping_mul(374_761_393).wrapping_add(iz.wrapping_mul(668_265_263)).wrapping_add(
        seed.wrapping_mul(362_437),
    );
    let h2 = (h ^ (h >> 13u32)).wrapping_mul(1_274_126_177);
    h2 & MASK_31
}

/// The 31-bit lattice hash of `(ix, iz)` under `seed`.
pub fn lattice_hash(ix: i64, iz: i64, seed: i64) -> (h: i64)
    ensures
        h == lattice_hash_spec(ix, iz, seed),
        0 <= h <= MASK_31,
{
    let mut h = ix.wrapping_mul(374_761_393).wrapping_add(iz.wrapping_mul(668_265_263)).wrapping_add(
        seed.wrapping_mul(362_437),
    );
    h = (h ^ (h >> 13u32)).wrapping_mul(1_274_126_177);
    let r = h & MASK_31;
    proof {
        assert(0 <= h & 0x7fff_ffffi64 <= 0x7fff_ffffi64) by (bit_vector);
    }
    r
}

} // verus!
