use vstd::prelude::*;
use crate::constants::{OBSTACLE_AMOUNT, OFFSET_BOUND, PIXEL_RATIO, WORLD_OFFSET_BOUND};

verus! {

/// Relies on `rand::thread_rng` and `rand::Rng::gen_range`: a value drawn from
/// `lo..hi`, which lies in that half-open range. `gen_range` panics on an empty
/// range, which `lo < hi` excludes.
#[verifier::external_body]
fn random_between(lo: i64, hi: i64) -> (r: i64)
    requires
        lo < hi,
    ensures
        lo <= r < hi,
{
    rand::Rng::gen_range(&mut rand::thread_rng(), lo..hi)
}

/// A vertical shift that a pair of pipes may be given, in thousandths of a unit.
pub open spec fn offset_in_range(o: int) -> bool {
    -WORLD_OFFSET_BOUND <= o < WORLD_OFFSET_BOUND
}

/// A sample in thousandths of a pixel, scaled to the world.
pub open spec fn world_offset(s: int) -> int {
    s * PIXEL_RATIO
}

/// The vertical shift in the world for a sample drawn in thousandths of a
/// pixel: the sample scaled by the pixel ratio.
pub fn offset_from_sample(s: i64) -> (r: i64)
    requires
        -OFFSET_BOUND <= s < OFFSET_BOUND,
    ensures
        r == s * PIXEL_RATIO,
        r == world_offset(s as int),
        offset_in_range(r as int),
        r % PIXEL_RATIO == 0,
{
    s * PIXEL_RATIO
}

/// Draws the random vertical shift of a pipe pair: a whole number of
/// thousandths of a pixel in `[-OBSTACLE_VERTICAL_OFFSET, OBSTACLE_VERTICAL_OFFSET)`
/// pixels, scaled to the world.
pub fn generate_offset() -> (r: i64)
    ensures
        exists|s: int| -OFFSET_BOUND <= s < OFFSET_BOUND && r == #[trigger] world_offset(s),
        offset_in_range(r as int),
        r % PIXEL_RATIO == 0,
{
    let s = random_between(-OFFSET_BOUND, OFFSET_BOUND);
    let r = offset_from_sample(s);
    assert(-OFFSET_BOUND <= s as int && (s as int) < OFFSET_BOUND && r == world_offset(s as int));
    r
}

/// A valid vertical shift for each pipe pair.
pub open spec fn offsets_ok(offsets: Seq<i64>) -> bool {
    &&& offsets.len() == OBSTACLE_AMOUNT
    &&& forall|k: int| 0 <= k < OBSTACLE_AMOUNT ==> offset_in_range(#[trigger] offsets[k] as int)
}

/// Draws one vertical shift for each pipe pair.
pub fn generate_offsets() -> (r: Vec<i64>)
    ensures
        offsets_ok(r@),
        forall|k: int| 0 <= k < r@.len() ==> #[trigger] r@[k] % PIXEL_RATIO == 0,
{
    let mut r: Vec<i64> = Vec::new();
    while r.len() < OBSTACLE_AMOUNT
        invariant
            r@.len() <= OBSTACLE_AMOUNT,
            forall|k: int| 0 <= k < r@.len() ==> offset_in_range(#[trigger] r@[k] as int),
            forall|k: int| 0 <= k < r@.len() ==> #[trigger] r@[k] % PIXEL_RATIO == 0,
        decreases OBSTACLE_AMOUNT - r@.len(),
    {
        let o = generate_offset();
        r.push(o);
    }
    r
}

} // verus!
