use vstd::prelude::*;
use crate::bird::fits_i64;
use crate::constants::{
    CENTERED_PIPE_POSITION, HALF_MILLI, HALF_OBSTACLE_HEIGHT, HALF_OBSTACLE_WIDTH, OBSTACLE_AMOUNT,
    OBSTACLE_COUNT, OBSTACLE_SCROLL_SPEED, PIXEL_RATIO, RECYCLE_DISTANCE,
};
use crate::offset::{generate_offsets, offset_in_range, offsets_ok};

verus! {

/// One pipe. `pipe_direction` is `1` for the pipe above its gap and `-1` for
/// the pipe below it; it never changes.
#[derive(Clone, Copy, Debug, PartialEq, Eq, Structural)]
pub struct Obstacle {
    pub pipe_direction: i64,
    /// Horizontal position of the pipe's centre, in thousandths of a unit.
    pub x: i64,
    /// Vertical position of the pipe's centre, in thousandths of a unit.
    pub y: i64,
}

/// Distance between two integers.
pub open spec fn dist(a: int, b: int) -> int {
    if a >= b { a - b } else { b - a }
}

/// Direction of the pipe at index `j` of the field: pairs are stored as the
/// upper pipe followed by the lower one.
pub open spec fn pipe_direction_of(j: int) -> int {
    if j % 2 == 0 { 1 } else { -1 }
}

/// Horizontal spacing of pairs when the field is laid out: half the screen
/// width, scaled by the pixel ratio.
pub open spec fn spawn_spacing(width: int) -> int {
    width * HALF_MILLI * PIXEL_RATIO
}

/// Whether `o` is the pipe at index `j` of a field laid out on a screen
/// `width` units wide, its pair shifted vertically by `offset`.
pub open spec fn is_spawned(o: Obstacle, width: int, j: int, offset: int) -> bool {
    &&& o.pipe_direction == pipe_direction_of(j)
    &&& o.x == spawn_spacing(width) * (j / 2)
    &&& o.y == pipe_direction_of(j) * CENTERED_PIPE_POSITION + offset
}

/// Whether `obs` is the field laid out on a screen `width` units wide, pair
/// `k` shifted vertically by `offsets[k]`.
pub open spec fn is_layout(obs: Seq<Obstacle>, width: int, offsets: Seq<i64>) -> bool {
    &&& obs.len() == OBSTACLE_COUNT
    &&& offsets.len() == OBSTACLE_AMOUNT
    &&& forall|j: int| 0 <= j < OBSTACLE_COUNT
        ==> is_spawned(#[trigger] obs[j], width, j, offsets[j / 2] as int)
}

/// Whether pair `k` of `obs` holds together: both pipes at the same
/// horizontal position, the upper one `CENTERED_PIPE_POSITION` above and the
/// lower one as far below one shared, valid vertical shift.
pub open spec fn pair_ok(obs: Seq<Obstacle>, k: int) -> bool {
    let upper = obs[2 * k];
    let lower = obs[2 * k + 1];
    &&& upper.x == lower.x
    &&& upper.y - CENTERED_PIPE_POSITION == lower.y + CENTERED_PIPE_POSITION
    &&& offset_in_range(upper.y - CENTERED_PIPE_POSITION)
}

/// The field's invariant: `OBSTACLE_AMOUNT` pairs, each stored upper pipe
/// first, each holding together.
pub open spec fn field_wf(obs: Seq<Obstacle>) -> bool {
    &&& obs.len() == OBSTACLE_COUNT
    &&& forall|j: int| 0 <= j < OBSTACLE_COUNT
        ==> (#[trigger] obs[j]).pipe_direction == pipe_direction_of(j)
    &&& forall|k: int| 0 <= k < OBSTACLE_AMOUNT ==> #[trigger] pair_ok(obs, k)
}

/// Horizontal position after scrolling for `dt` milliseconds.
pub open spec fn scrolled(x: int, dt: int) -> int {
    x - OBSTACLE_SCROLL_SPEED * dt
}

/// Whether a pipe at `x` has left a screen `width` units wide on the left:
/// its right edge is past the screen's left edge.
pub open spec fn is_off_screen(x: int, width: int) -> bool {
    x + HALF_OBSTACLE_WIDTH < -(width * HALF_MILLI)
}

/// Whether `new` is `old` after a frame of `dt` milliseconds: it scrolls
/// left, and if it then has left the screen it jumps forward by
/// `RECYCLE_DISTANCE` and is placed on the frame's vertical shift `offset`.
pub open spec fn is_advanced(new: Obstacle, old: Obstacle, width: int, dt: int, offset: int) -> bool {
    let x1 = scrolled(old.x as int, dt);
    &&& new.pipe_direction == old.pipe_direction
    &&& if is_off_screen(x1, width) {
        &&& new.x == x1 + RECYCLE_DISTANCE
        &&& new.y == old.pipe_direction * CENTERED_PIPE_POSITION + offset
    } else {
        &&& new.x == x1
        &&& new.y == old.y
    }
}

/// Whether a pipe can scroll for `dt` milliseconds without leaving `i64`.
pub open spec fn scroll_fits(o: Obstacle, dt: int) -> bool {
    fits_i64(scrolled(o.x as int, dt))
}

/// Whether a bird at horizontal position 0 and height `height` is inside the
/// pipe's bounding box on both axes.
pub open spec fn hits(o: Obstacle, height: int) -> bool {
    &&& dist(o.y as int, height) < HALF_OBSTACLE_HEIGHT
    &&& dist(o.x as int, 0) < HALF_OBSTACLE_WIDTH
}

impl Obstacle {
    /// This pipe after a frame of `dt` milliseconds on a screen `width` units
    /// wide, with `offset` as the frame's vertical shift for recycled pipes.
    pub fn advanced(&self, width: u32, dt: u32, offset: i64) -> (r: Obstacle)
        requires
            scroll_fits(*self, dt as int),
            offset_in_range(offset as int),
            self.pipe_direction == 1 || self.pipe_direction == -1,
        ensures
            is_advanced(r, *self, width as int, dt as int, offset as int),
    {
        let x: i64 = self.x - OBSTACLE_SCROLL_SPEED * (dt as i64);
        let left_edge: i64 = -((width as i64) * HALF_MILLI);
        if x < left_edge - HALF_OBSTACLE_WIDTH {
            Obstacle {
                pipe_direction: self.pipe_direction,
                x: x + RECYCLE_DISTANCE,
                y: CENTERED_PIPE_POSITION * self.pipe_direction + offset,
            }
        } else {
            Obstacle { x, ..*self }
        }
    }

    /// Whether a bird at height `height` collides with this pipe.
    pub fn hits(&self, height: i64) -> (r: bool)
        ensures
            r == hits(*self, height as int),
    {
        let dy: i128 = (self.y as i128) - (height as i128);
        let dx: i128 = self.x as i128;
        let ady: i128 = if dy >= 0 { dy } else { -dy };
        let adx: i128 = if dx >= 0 { dx } else { -dx };
        ady < HALF_OBSTACLE_HEIGHT as i128 && adx < HALF_OBSTACLE_WIDTH as i128
    }
}

/// A pipe at `(x, y)` pointing `pipe_direction`.
pub fn spawn_obstacle(x: i64, y: i64, pipe_direction: i64) -> (r: Obstacle)
    ensures
        r == (Obstacle { pipe_direction, x, y }),
{
    Obstacle { pipe_direction, x, y }
}

/// Lays the field out on a screen `window_width` units wide: pair `k` at
/// horizontal position `k * window_width / 2 * PIXEL_RATIO`, its pipes
/// `CENTERED_PIPE_POSITION` above and below `offsets[k]`.
pub fn spawn_obstacles(window_width: u32, offsets: &Vec<i64>) -> (r: Vec<Obstacle>)
    requires
        offsets_ok(offsets@),
    ensures
        is_layout(r@, window_width as int, offsets@),
        field_wf(r@),
{
    let mut r: Vec<Obstacle> = Vec::new();
    let mut k: usize = 0;
    while k < OBSTACLE_AMOUNT
        invariant
            k <= OBSTACLE_AMOUNT,
            r@.len() == 2 * k,
            offsets@.len() == OBSTACLE_AMOUNT,
            forall|k: int| 0 <= k < OBSTACLE_AMOUNT ==> offset_in_range(#[trigger] offsets@[k] as int),
            forall|j: int| 0 <= j < 2 * k
                ==> is_spawned(#[trigger] r@[j], window_width as int, j, offsets@[j / 2] as int),
        decreases OBSTACLE_AMOUNT - k,
    {
        assert(0 <= window_width * HALF_MILLI * PIXEL_RATIO * k <= 0xffff_ffff * 10_000)
            by (nonlinear_arith)
            requires
                0 <= window_width <= 0xffff_ffff,
                0 <= k < 5,
                HALF_MILLI == 500,
                PIXEL_RATIO == 4,
        ;
        let x: i64 = (window_width as i64) * HALF_MILLI * PIXEL_RATIO * (k as i64);
        let offset: i64 = offsets[k];
        r.push(spawn_obstacle(x, CENTERED_PIPE_POSITION + offset, 1));
        r.push(spawn_obstacle(x, offset - CENTERED_PIPE_POSITION, -1));
        proof {
            let kk = k as int;
            assert((2 * kk) / 2 == kk && (2 * kk + 1) / 2 == kk);
            assert(is_spawned(r@[2 * kk], window_width as int, 2 * kk, offsets@[kk] as int));
            assert(is_spawned(r@[2 * kk + 1], window_width as int, 2 * kk + 1, offsets@[kk] as int));
        }
        k = k + 1;
    }
    proof {
        lemma_layout_shape(r@, window_width as int, offsets@);
    }
    r
}

/// Lays the field out on a screen `window_width` units wide with a fresh
/// random vertical shift for each pair.
pub fn spawn_random_obstacles(window_width: u32) -> (r: Vec<Obstacle>)
    ensures
        field_wf(r@),
        exists|offsets: Seq<i64>| offsets_ok(offsets) && is_layout(r@, window_width as int, offsets),
{
    let offsets = generate_offsets();
    let r = spawn_obstacles(window_width, &offsets);
    assert(offsets_ok(offsets@) && is_layout(r@, window_width as int, offsets@));
    r
}

/// A freshly laid out field is well formed: consecutive pairs stand exactly
/// `window_width / 2 * PIXEL_RATIO` units apart, and the two pipes of a pair
/// share their horizontal position and their vertical shift, differing only in
/// the sign of `CENTERED_PIPE_POSITION` and in direction.
pub proof fn lemma_layout_shape(obs: Seq<Obstacle>, width: int, offsets: Seq<i64>)
    requires
        is_layout(obs, width, offsets),
        offsets_ok(offsets),
    ensures
        field_wf(obs),
        forall|k: int| 0 <= k < OBSTACLE_AMOUNT - 1
            ==> #[trigger] obs[2 * (k + 1)].x - obs[2 * k].x == spawn_spacing(width),
        forall|k: int| 0 <= k < OBSTACLE_AMOUNT ==> {
            &&& (#[trigger] obs[2 * k]).x == obs[2 * k + 1].x
            &&& obs[2 * k].y == CENTERED_PIPE_POSITION + offsets[k]
            &&& obs[2 * k + 1].y == -CENTERED_PIPE_POSITION + offsets[k]
            &&& obs[2 * k].pipe_direction == 1
            &&& obs[2 * k + 1].pipe_direction == -1
        },
{
    assert forall|k: int| 0 <= k < OBSTACLE_AMOUNT implies {
        &&& (#[trigger] obs[2 * k]).x == obs[2 * k + 1].x
        &&& obs[2 * k].y == CENTERED_PIPE_POSITION + offsets[k]
        &&& obs[2 * k + 1].y == -CENTERED_PIPE_POSITION + offsets[k]
        &&& obs[2 * k].pipe_direction == 1
        &&& obs[2 * k + 1].pipe_direction == -1
        &&& pair_ok(obs, k)
    } by {
        assert(is_spawned(obs[2 * k], width, 2 * k, offsets[k] as int));
        assert(is_spawned(obs[2 * k + 1], width, 2 * k + 1, offsets[k] as int));
    }
    assert forall|k: int| 0 <= k < OBSTACLE_AMOUNT - 1
        implies #[trigger] obs[2 * (k + 1)].x - obs[2 * k].x == spawn_spacing(width) by {
        assert(is_spawned(obs[2 * k], width, 2 * k, offsets[k] as int));
        assert(is_spawned(obs[2 * (k + 1)], width, 2 * (k + 1), offsets[k + 1] as int));
        let s = spawn_spacing(width);
        assert(s * (k + 1) - s * k == s) by (nonlinear_arith);
    }
}

} // verus!
