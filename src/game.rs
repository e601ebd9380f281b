use vstd::prelude::*;
use crate::bird::{
    fall, flight_fits, gravity_drop, lemma_fall_closed_form, next_height, next_velocity, tilt, Bird,
};
use crate::constants::{
    CENTERED_PIPE_POSITION, HALF_MILLI, OBSTACLE_AMOUNT, OBSTACLE_COUNT, OBSTACLE_SCROLL_SPEED,
    RECYCLE_DISTANCE,
};
use crate::obstacle::{
    field_wf, hits, is_advanced, is_layout, is_off_screen, pair_ok, pipe_direction_of,
    scroll_fits, scrolled, spawn_obstacles, Obstacle,
};
use crate::offset::{generate_offset, generate_offsets, offset_in_range, offsets_ok};

verus! {

/// The whole simulation: the screen's size, the bird and the pipe field.
#[derive(Clone, Debug)]
pub struct GameManager {
    /// Screen width, in world units.
    pub window_width: u32,
    /// Screen height, in world units.
    pub window_height: u32,
    pub bird: Bird,
    /// The bird's tilt for drawing, in fifteenths of a degree: worked out
    /// from the velocity of the last frame before any collision, so a death
    /// that puts the bird back at rest leaves it as it was.
    pub tilt: i64,
    /// The pipes, pair by pair, upper pipe first.
    pub obstacles: Vec<Obstacle>,
}

/// Whether a bird at height `y` dies: it is below half the screen height
/// (the comparison is taken as it stands, against the positive half
/// height), or it is inside the bounding box of some pipe.
pub open spec fn is_dead(y: int, window_height: int, obs: Seq<Obstacle>) -> bool {
    ||| y < window_height * HALF_MILLI
    ||| exists|j: int| 0 <= j < obs.len() && hits(#[trigger] obs[j], y)
}

/// Whether every pipe can scroll for `dt` milliseconds without leaving `i64`.
pub open spec fn obstacles_fit(obs: Seq<Obstacle>, dt: int) -> bool {
    forall|j: int| 0 <= j < obs.len() ==> scroll_fits(#[trigger] obs[j], dt)
}

/// Whether `new_obs` is `old_obs` after a frame of scrolling and recycling.
pub open spec fn is_field_step(
    new_obs: Seq<Obstacle>,
    old_obs: Seq<Obstacle>,
    width: int,
    dt: int,
    offset: int,
) -> bool {
    &&& new_obs.len() == old_obs.len()
    &&& forall|j: int| 0 <= j < old_obs.len()
        ==> is_advanced(#[trigger] new_obs[j], old_obs[j], width, dt, offset)
}

/// Whether the bird `new_bird` and the field `new_obs` follow from
/// `old_bird` and `old_obs` by one frame of the bird: it flies, and if it
/// then dies it is put back at the origin at rest and the field is laid out
/// afresh with `offsets`; otherwise the field is untouched.
pub open spec fn is_bird_step(
    new_bird: Bird,
    new_obs: Seq<Obstacle>,
    old_bird: Bird,
    old_obs: Seq<Obstacle>,
    width: int,
    height: int,
    dt: int,
    flap: bool,
    offsets: Seq<i64>,
) -> bool {
    let v = next_velocity(old_bird.velocity as int, dt, flap);
    let y = next_height(old_bird.velocity as int, old_bird.height as int, dt, flap);
    if is_dead(y, height, old_obs) {
        &&& new_bird == (Bird { velocity: 0, height: 0 })
        &&& is_layout(new_obs, width, offsets)
    } else {
        &&& new_bird.velocity == v
        &&& new_bird.height == y
        &&& new_obs == old_obs
    }
}

impl GameManager {
    /// The simulation's invariant: the pipe field is well formed.
    pub open spec fn wf(&self) -> bool {
        field_wf(self.obstacles@)
    }

    /// A fresh simulation on a screen of the given size: the bird at the
    /// origin at rest, the field laid out with `offsets`.
    pub fn new_with(window_width: u32, window_height: u32, offsets: &Vec<i64>) -> (r: GameManager)
        requires
            offsets_ok(offsets@),
        ensures
            r.wf(),
            r.window_width == window_width,
            r.window_height == window_height,
            r.bird == (Bird { velocity: 0, height: 0 }),
            r.tilt == 0,
            is_layout(r.obstacles@, window_width as int, offsets@),
    {
        GameManager {
            window_width,
            window_height,
            bird: Bird::new(),
            tilt: 0,
            obstacles: spawn_obstacles(window_width, offsets),
        }
    }

    /// A fresh simulation with random vertical shifts.
    pub fn new(window_width: u32, window_height: u32) -> (r: GameManager)
        ensures
            r.wf(),
            r.window_width == window_width,
            r.window_height == window_height,
            r.bird == (Bird { velocity: 0, height: 0 }),
            r.tilt == 0,
            exists|offsets: Seq<i64>|
                offsets_ok(offsets) && is_layout(r.obstacles@, window_width as int, offsets),
    {
        let offsets = generate_offsets();
        let r = GameManager::new_with(window_width, window_height, &offsets);
        assert(offsets_ok(offsets@) && is_layout(r.obstacles@, window_width as int, offsets@));
        r
    }

    /// Whether a bird at height `y` dies against the screen or the pipes.
    pub fn collides(&self, y: i64) -> (r: bool)
        ensures
            r == is_dead(y as int, self.window_height as int, self.obstacles@),
    {
        let half_height: i64 = (self.window_height as i64) * HALF_MILLI;
        if y < half_height {
            return true;
        }
        let mut i: usize = 0;
        while i < self.obstacles.len()
            invariant
                0 <= i <= self.obstacles@.len(),
                forall|j: int| 0 <= j < i ==> !hits(#[trigger] self.obstacles@[j], y as int),
            decreases self.obstacles@.len() - i,
        {
            if self.obstacles[i].hits(y) {
                return true;
            }
            i = i + 1;
        }
        false
    }

    /// Whether `update_obstacles` can scroll every pipe for `dt`
    /// milliseconds without leaving `i64`.
    pub fn can_update_obstacles(&self, dt: u32) -> (r: bool)
        ensures
            r == obstacles_fit(self.obstacles@, dt as int),
    {
        let mut i: usize = 0;
        while i < self.obstacles.len()
            invariant
                0 <= i <= self.obstacles@.len(),
                forall|j: int| 0 <= j < i ==> scroll_fits(#[trigger] self.obstacles@[j], dt as int),
            decreases self.obstacles@.len() - i,
        {
            if self.obstacles[i].x < i64::MIN + OBSTACLE_SCROLL_SPEED * (dt as i64) {
                return false;
            }
            i = i + 1;
        }
        true
    }

    /// Puts the bird back at the origin at rest and lays the field out
    /// afresh with `offsets`.
    pub fn reset_with(&mut self, offsets: &Vec<i64>)
        requires
            offsets_ok(offsets@),
        ensures
            final(self).wf(),
            final(self).window_width == old(self).window_width,
            final(self).window_height == old(self).window_height,
            final(self).bird == (Bird { velocity: 0, height: 0 }),
            final(self).tilt == old(self).tilt,
            is_layout(final(self).obstacles@, old(self).window_width as int, offsets@),
    {
        self.bird = Bird::new();
        self.obstacles = spawn_obstacles(self.window_width, offsets);
    }

    /// One frame of the pipes: each scrolls left by
    /// `OBSTACLE_SCROLL_SPEED * dt`, and each that has left the screen jumps
    /// forward by `RECYCLE_DISTANCE` onto the one vertical shift `offset`
    /// of this frame.
    pub fn update_obstacles_with(&mut self, dt: u32, offset: i64)
        requires
            old(self).wf(),
            obstacles_fit(old(self).obstacles@, dt as int),
            offset_in_range(offset as int),
        ensures
            final(self).wf(),
            final(self).window_width == old(self).window_width,
            final(self).window_height == old(self).window_height,
            final(self).bird == old(self).bird,
            final(self).tilt == old(self).tilt,
            is_field_step(
                final(self).obstacles@,
                old(self).obstacles@,
                old(self).window_width as int,
                dt as int,
                offset as int,
            ),
    {
        let ghost old_obs = self.obstacles@;
        let mut i: usize = 0;
        while i < self.obstacles.len()
            invariant
                0 <= i <= OBSTACLE_COUNT,
                self.obstacles@.len() == OBSTACLE_COUNT,
                old_obs.len() == OBSTACLE_COUNT,
                field_wf(old_obs),
                obstacles_fit(old_obs, dt as int),
                offset_in_range(offset as int),
                self.window_width == old(self).window_width,
                self.window_height == old(self).window_height,
                self.bird == old(self).bird,
                self.tilt == old(self).tilt,
                old_obs == old(self).obstacles@,
                forall|j: int| 0 <= j < i ==> is_advanced(
                    #[trigger] self.obstacles@[j],
                    old_obs[j],
                    self.window_width as int,
                    dt as int,
                    offset as int,
                ),
                forall|j: int| i <= j < OBSTACLE_COUNT ==> #[trigger] self.obstacles@[j] == old_obs[j],
            decreases OBSTACLE_COUNT - i,
        {
            assert(old_obs[i as int].pipe_direction == pipe_direction_of(i as int));
            assert(scroll_fits(old_obs[i as int], dt as int));
            let o = self.obstacles[i].advanced(self.window_width, dt, offset);
            self.obstacles.set(i, o);
            i = i + 1;
        }
        proof {
            lemma_recycle(self.obstacles@, old_obs, self.window_width as int, dt as int, offset as int);
        }
    }

    /// One frame of the pipes, with a freshly drawn vertical shift.
    pub fn update_obstacles(&mut self, dt: u32)
        requires
            old(self).wf(),
            obstacles_fit(old(self).obstacles@, dt as int),
        ensures
            final(self).wf(),
            final(self).window_width == old(self).window_width,
            final(self).window_height == old(self).window_height,
            final(self).bird == old(self).bird,
            final(self).tilt == old(self).tilt,
            exists|offset: int|
                offset_in_range(offset) && is_field_step(
                    final(self).obstacles@,
                    old(self).obstacles@,
                    old(self).window_width as int,
                    dt as int,
                    offset,
                ),
    {
        let offset = generate_offset();
        self.update_obstacles_with(dt, offset);
    }

    /// One frame of the bird: a flap sets its velocity to `FLAP_FORCE`,
    /// gravity lowers it, the tilt follows the new velocity, the bird moves;
    /// if it then dies against the screen
    /// or a pipe it goes back to the origin at rest and the field is laid out
    /// afresh with `offsets`.
    pub fn update_bird_with(&mut self, dt: u32, flap: bool, offsets: &Vec<i64>)
        requires
            old(self).wf(),
            flight_fits(old(self).bird.velocity as int, old(self).bird.height as int, dt as int, flap),
            offsets_ok(offsets@),
        ensures
            final(self).wf(),
            final(self).window_width == old(self).window_width,
            final(self).window_height == old(self).window_height,
            final(self).tilt == tilt(next_velocity(old(self).bird.velocity as int, dt as int, flap)),
            is_bird_step(
                final(self).bird,
                final(self).obstacles@,
                old(self).bird,
                old(self).obstacles@,
                old(self).window_width as int,
                old(self).window_height as int,
                dt as int,
                flap,
                offsets@,
            ),
    {
        let moved = self.bird.fly(dt, flap);
        self.tilt = moved.orientation();
        if self.collides(moved.height) {
            self.reset_with(offsets);
        } else {
            self.bird = moved;
        }
    }

    /// One frame of the bird, with fresh random vertical shifts for the
    /// field should it be laid out again.
    pub fn update_bird(&mut self, dt: u32, flap: bool)
        requires
            old(self).wf(),
            flight_fits(old(self).bird.velocity as int, old(self).bird.height as int, dt as int, flap),
        ensures
            final(self).wf(),
            final(self).window_width == old(self).window_width,
            final(self).window_height == old(self).window_height,
            final(self).tilt == tilt(next_velocity(old(self).bird.velocity as int, dt as int, flap)),
            exists|offsets: Seq<i64>|
                offsets_ok(offsets) && is_bird_step(
                    final(self).bird,
                    final(self).obstacles@,
                    old(self).bird,
                    old(self).obstacles@,
                    old(self).window_width as int,
                    old(self).window_height as int,
                    dt as int,
                    flap,
                    offsets,
                ),
    {
        let offsets = generate_offsets();
        self.update_bird_with(dt, flap, &offsets);
        assert(offsets_ok(offsets@));
    }

    /// One whole frame: the pipes move first, then the bird flies and is
    /// checked against the pipes where they now stand.
    pub fn frame_with(&mut self, dt: u32, flap: bool, offset: i64, offsets: &Vec<i64>)
        requires
            old(self).wf(),
            obstacles_fit(old(self).obstacles@, dt as int),
            flight_fits(old(self).bird.velocity as int, old(self).bird.height as int, dt as int, flap),
            offset_in_range(offset as int),
            offsets_ok(offsets@),
        ensures
            final(self).wf(),
            final(self).window_width == old(self).window_width,
            final(self).window_height == old(self).window_height,
            final(self).tilt == tilt(next_velocity(old(self).bird.velocity as int, dt as int, flap)),
            exists|moved: Seq<Obstacle>|
                is_field_step(
                    moved,
                    old(self).obstacles@,
                    old(self).window_width as int,
                    dt as int,
                    offset as int,
                ) && is_bird_step(
                    final(self).bird,
                    final(self).obstacles@,
                    old(self).bird,
                    moved,
                    old(self).window_width as int,
                    old(self).window_height as int,
                    dt as int,
                    flap,
                    offsets@,
                ),
    {
        self.update_obstacles_with(dt, offset);
        let ghost moved = self.obstacles@;
        self.update_bird_with(dt, flap, offsets);
        assert(is_bird_step(
            self.bird,
            self.obstacles@,
            old(self).bird,
            moved,
            old(self).window_width as int,
            old(self).window_height as int,
            dt as int,
            flap,
            offsets@,
        ));
    }
}

/// Recycling keeps the field whole. A pipe whose right edge has passed the
/// screen's left edge after scrolling jumps forward by exactly
/// `RECYCLE_DISTANCE` and is placed `CENTERED_PIPE_POSITION` from the frame's
/// vertical shift on its own side; the two pipes of a pair share their
/// horizontal position, so they are recycled in the same frame and onto the
/// same shift, and every pair still holds together.
pub proof fn lemma_recycle(
    new_obs: Seq<Obstacle>,
    old_obs: Seq<Obstacle>,
    width: int,
    dt: int,
    offset: int,
)
    requires
        field_wf(old_obs),
        is_field_step(new_obs, old_obs, width, dt, offset),
        offset_in_range(offset),
    ensures
        field_wf(new_obs),
        forall|j: int|
            0 <= j < OBSTACLE_COUNT && #[trigger] is_off_screen(scrolled(old_obs[j].x as int, dt), width)
                ==> new_obs[j].x == old_obs[j].x - OBSTACLE_SCROLL_SPEED * dt + RECYCLE_DISTANCE
                && new_obs[j].y == pipe_direction_of(j) * CENTERED_PIPE_POSITION + offset,
        forall|k: int|
            0 <= k < OBSTACLE_AMOUNT ==> #[trigger] is_off_screen(scrolled(old_obs[2 * k].x as int, dt), width)
                == is_off_screen(scrolled(old_obs[2 * k + 1].x as int, dt), width),
{
    assert forall|j: int| 0 <= j < OBSTACLE_COUNT implies
        (#[trigger] new_obs[j]).pipe_direction == pipe_direction_of(j) by {
        assert(is_advanced(new_obs[j], old_obs[j], width, dt, offset));
        assert(old_obs[j].pipe_direction == pipe_direction_of(j));
    }
    assert forall|k: int| 0 <= k < OBSTACLE_AMOUNT implies #[trigger] pair_ok(new_obs, k) by {
        assert(pair_ok(old_obs, k));
        assert(is_advanced(new_obs[2 * k], old_obs[2 * k], width, dt, offset));
        assert(is_advanced(new_obs[2 * k + 1], old_obs[2 * k + 1], width, dt, offset));
        assert(old_obs[2 * k].pipe_direction == pipe_direction_of(2 * k));
        assert(old_obs[2 * k + 1].pipe_direction == pipe_direction_of(2 * k + 1));
    }
    assert forall|j: int|
        0 <= j < OBSTACLE_COUNT && #[trigger] is_off_screen(scrolled(old_obs[j].x as int, dt), width)
            implies new_obs[j].x == old_obs[j].x - OBSTACLE_SCROLL_SPEED * dt + RECYCLE_DISTANCE
            && new_obs[j].y == pipe_direction_of(j) * CENTERED_PIPE_POSITION + offset by {
        assert(is_advanced(new_obs[j], old_obs[j], width, dt, offset));
        assert(old_obs[j].pipe_direction == pipe_direction_of(j));
    }
    assert forall|k: int| 0 <= k < OBSTACLE_AMOUNT implies
        #[trigger] is_off_screen(scrolled(old_obs[2 * k].x as int, dt), width)
            == is_off_screen(scrolled(old_obs[2 * k + 1].x as int, dt), width) by {
        assert(pair_ok(old_obs, k));
    }
}

/// A bird that ends a frame below half the screen height is always put back
/// at the origin at rest, and the field it leaves is a fresh layout of
/// `OBSTACLE_AMOUNT` well-formed pairs.
pub proof fn lemma_death_resets(
    new_bird: Bird,
    new_obs: Seq<Obstacle>,
    old_bird: Bird,
    old_obs: Seq<Obstacle>,
    width: int,
    height: int,
    dt: int,
    flap: bool,
    offsets: Seq<i64>,
)
    requires
        is_bird_step(new_bird, new_obs, old_bird, old_obs, width, height, dt, flap, offsets),
        offsets_ok(offsets),
        next_height(old_bird.velocity as int, old_bird.height as int, dt, flap) < height * HALF_MILLI,
    ensures
        new_bird.velocity == 0,
        new_bird.height == 0,
        new_obs.len() == OBSTACLE_COUNT,
        is_layout(new_obs, width, offsets),
        field_wf(new_obs),
{
    crate::obstacle::lemma_layout_shape(new_obs, width, offsets);
}

/// Whether frame `i` of a run without a flap was survived: bird `i + 1`
/// and field `i + 1` follow from bird `i` and field `i` by one frame of
/// `dts[i]` milliseconds, in which the bird did not die.
pub open spec fn survived_fall(
    birds: Seq<Bird>,
    fields: Seq<Seq<Obstacle>>,
    width: int,
    height: int,
    dts: Seq<int>,
    offsets: Seq<i64>,
    i: int,
) -> bool {
    let b = birds[i];
    &&& is_bird_step(birds[i + 1], fields[i + 1], b, fields[i], width, height, dts[i], false, offsets)
    &&& !is_dead(next_height(b.velocity as int, b.height as int, dts[i], false), height, fields[i])
}

/// Velocity lost to gravity over frames of lengths `dts`.
pub open spec fn total_drop(dts: Seq<int>) -> int
    decreases dts.len(),
{
    if dts.len() == 0 {
        0
    } else {
        total_drop(dts.drop_last()) + gravity_drop(dts.last())
    }
}

/// Over a run of frames without a flap that the bird survives, each frame
/// lowers the velocity by exactly `GRAVITY * dt` (strictly, when the frame
/// has positive length), with no floor, so after the run the velocity has
/// dropped by the sum of those amounts.
pub proof fn lemma_falling_run(
    birds: Seq<Bird>,
    fields: Seq<Seq<Obstacle>>,
    width: int,
    height: int,
    dts: Seq<int>,
    offsets: Seq<i64>,
)
    requires
        birds.len() == dts.len() + 1,
        fields.len() == dts.len() + 1,
        forall|i: int| 0 <= i < dts.len()
            ==> #[trigger] survived_fall(birds, fields, width, height, dts, offsets, i),
    ensures
        forall|i: int| 0 <= i < dts.len()
            ==> #[trigger] birds[i + 1].velocity == birds[i].velocity - gravity_drop(dts[i]),
        forall|i: int| 0 <= i < dts.len() && dts[i] > 0
            ==> #[trigger] birds[i + 1].velocity < birds[i].velocity,
        birds[dts.len() as int].velocity == birds[0].velocity - total_drop(dts),
    decreases dts.len(),
{
    assert forall|i: int| 0 <= i < dts.len() implies
        #[trigger] birds[i + 1].velocity == birds[i].velocity - gravity_drop(dts[i]) by {
        assert(survived_fall(birds, fields, width, height, dts, offsets, i));
    }
    assert forall|i: int| 0 <= i < dts.len() && dts[i] > 0 implies
        #[trigger] birds[i + 1].velocity < birds[i].velocity by {
        assert(survived_fall(birds, fields, width, height, dts, offsets, i));
        assert(birds[i + 1].velocity == birds[i].velocity - gravity_drop(dts[i]));
    }
    if dts.len() > 0 {
        let n = dts.len() - 1;
        let b2 = birds.subrange(0, n + 1);
        let f2 = fields.subrange(0, n + 1);
        let d2 = dts.drop_last();
        assert forall|i: int| 0 <= i < d2.len()
            implies #[trigger] survived_fall(b2, f2, width, height, d2, offsets, i) by {
            assert(survived_fall(birds, fields, width, height, dts, offsets, i));
        }
        lemma_falling_run(b2, f2, width, height, d2, offsets);
        assert(birds[n + 1].velocity == birds[n].velocity - gravity_drop(dts[n]));
    }
}

/// From any state, `k` survived frames of `dt` milliseconds without a flap
/// leave the bird where `k` steps of free fall take it.
proof fn lemma_run_follows_fall(
    birds: Seq<Bird>,
    fields: Seq<Seq<Obstacle>>,
    width: int,
    height: int,
    dts: Seq<int>,
    dt: int,
    offsets: Seq<i64>,
    k: nat,
)
    requires
        k <= dts.len(),
        birds.len() == dts.len() + 1,
        fields.len() == dts.len() + 1,
        forall|j: int| 0 <= j < dts.len() ==> #[trigger] dts[j] == dt,
        forall|i: int| 0 <= i < dts.len()
            ==> #[trigger] survived_fall(birds, fields, width, height, dts, offsets, i),
    ensures
        fall(birds[0].velocity as int, birds[0].height as int, dt, k)
            == (birds[k as int].velocity as int, birds[k as int].height as int),
    decreases k,
{
    if k > 0 {
        let m = (k - 1) as nat;
        lemma_run_follows_fall(birds, fields, width, height, dts, dt, offsets, m);
        assert(dts[m as int] == dt);
        assert(survived_fall(birds, fields, width, height, dts, offsets, m as int));
    }
}

/// A run of `n` survived frames, each of `dt` milliseconds, without a flap matches
/// the closed kinematic sum: the velocity drops by `n` times the loss per
/// frame `g`, and the height changes by `n * v * dt - g * dt * n * (n + 1) / 2`.
pub proof fn lemma_falling_run_closed_form(
    birds: Seq<Bird>,
    fields: Seq<Seq<Obstacle>>,
    width: int,
    height: int,
    dts: Seq<int>,
    dt: int,
    offsets: Seq<i64>,
)
    requires
        birds.len() == dts.len() + 1,
        fields.len() == dts.len() + 1,
        forall|j: int| 0 <= j < dts.len() ==> #[trigger] dts[j] == dt,
        forall|i: int| 0 <= i < dts.len()
            ==> #[trigger] survived_fall(birds, fields, width, height, dts, offsets, i),
    ensures
        ({
            let n = dts.len();
            &&& birds[n as int].velocity == birds[0].velocity - n * gravity_drop(dt)
            &&& birds[n as int].height == birds[0].height + n * birds[0].velocity * dt
                - gravity_drop(dt) * dt * (n * (n + 1) / 2)
        }),
{
    lemma_run_follows_fall(birds, fields, width, height, dts, dt, offsets, dts.len());
    lemma_fall_closed_form(birds[0].velocity as int, birds[0].height as int, dt, dts.len());
}

} // verus!
