use flappy::{
    generate_offset, generate_offsets, offset_from_sample, get_centered_pipe_position, spawn_obstacle,
    spawn_obstacles, spawn_random_obstacles, Bird, GameManager, Obstacle, CENTERED_PIPE_POSITION,
    FLAP_FORCE, GRAVITY, MILLI, OBSTACLE_AMOUNT, OBSTACLE_COUNT, OBSTACLE_SCROLL_SPEED,
    PIXEL_RATIO, RECYCLE_DISTANCE, WORLD_OFFSET_BOUND,
};

const OFFSETS: [i64; 5] = [0, 4_000, -8_000, 119_996, -120_000];

fn offsets() -> Vec<i64> {
    OFFSETS.to_vec()
}

fn check_layout(obs: &[Obstacle], width: i64, offs: &[i64]) {
    assert_eq!(obs.len(), OBSTACLE_COUNT);
    for k in 0..OBSTACLE_AMOUNT {
        let upper = obs[2 * k];
        let lower = obs[2 * k + 1];
        assert_eq!(upper.x, width * 2_000 * k as i64);
        assert_eq!(lower.x, upper.x);
        assert_eq!(upper.y, CENTERED_PIPE_POSITION + offs[k]);
        assert_eq!(lower.y, -CENTERED_PIPE_POSITION + offs[k]);
        assert_eq!(upper.pipe_direction, 1);
        assert_eq!(lower.pipe_direction, -1);
    }
}

#[test]
fn centered_pipe_position_value() {
    assert_eq!(get_centered_pipe_position(), 348_000);
    assert_eq!(RECYCLE_DISTANCE, 1_200_000);
}

#[test]
fn gravity_lowers_velocity_each_frame() {
    // A tall screen of height 0 and a bird far above the pipes: it can fall
    // for a while before it dies.
    let mut g = GameManager::new_with(512, 0, &offsets());
    g.bird = Bird { velocity: 0, height: 50_000_000 };
    let dt: u32 = 16;
    let mut frames = 0;
    loop {
        let before = g.bird;
        g.update_bird_with(dt, false, &offsets());
        if g.bird == (Bird { velocity: 0, height: 0 }) {
            break;
        }
        assert_eq!(g.bird.velocity, before.velocity - GRAVITY * dt as i64 / MILLI);
        assert!(g.bird.velocity < before.velocity);
        assert_eq!(g.bird.height, before.height + g.bird.velocity * dt as i64);
        frames += 1;
    }
    assert!(frames > 10);
}

#[test]
fn flap_sets_velocity_whatever_it_was() {
    for v in [-5_000, -1, 0, 200, 500, 9_999] {
        let b = Bird { velocity: v, height: 1_000 };
        let r = b.fly(10, true);
        assert_eq!(r.velocity, FLAP_FORCE - 20);
        assert_eq!(r.height, 1_000 + 480 * 10);
    }
    let b = Bird { velocity: 123, height: 0 };
    assert_eq!(b.fly(0, true).velocity, FLAP_FORCE);
}

#[test]
fn death_below_half_height_resets() {
    let mut g = GameManager::new_with(512, 512, &offsets());
    g.bird = Bird { velocity: -100, height: 300_000 };
    g.obstacles[0].x = 7_000_000;
    g.obstacles[1].x = 7_000_000;
    let fresh = vec![8_000, 8_000, 8_000, 8_000, 8_000];
    g.update_bird_with(1_000, false, &fresh);
    assert_eq!(g.bird, Bird { velocity: 0, height: 0 });
    check_layout(&g.obstacles, 512, &fresh);
}

#[test]
fn layout_spacing_after_reset() {
    let mut g = GameManager::new_with(300, 512, &offsets());
    g.bird = Bird { velocity: 7, height: 9 };
    g.reset_with(&offsets());
    assert_eq!(g.bird, Bird { velocity: 0, height: 0 });
    check_layout(&g.obstacles, 300, &OFFSETS);
    for k in 0..OBSTACLE_AMOUNT - 1 {
        assert_eq!(g.obstacles[2 * k + 2].x - g.obstacles[2 * k].x, 300 / 2 * PIXEL_RATIO * MILLI);
    }
}

#[test]
fn recycled_pair_jumps_forward() {
    let mut g = GameManager::new_with(512, 512, &offsets());
    // Left screen edge at -256 units; a pipe's half width is 64 units.
    g.obstacles[2].x = -319_000;
    g.obstacles[3].x = -319_000;
    g.update_obstacles_with(100, 40_000);
    let x = -319_000 - OBSTACLE_SCROLL_SPEED * 100;
    assert_eq!(g.obstacles[2].x, x + RECYCLE_DISTANCE);
    assert_eq!(g.obstacles[3].x, x + RECYCLE_DISTANCE);
    assert_eq!(g.obstacles[2].y, CENTERED_PIPE_POSITION + 40_000);
    assert_eq!(g.obstacles[3].y, -CENTERED_PIPE_POSITION + 40_000);
    // The others only scroll.
    assert_eq!(g.obstacles[0].x, -15_000);
    assert_eq!(g.obstacles[0].y, CENTERED_PIPE_POSITION);
    assert_eq!(g.obstacles[4].x, 2_048_000 - 15_000);
    assert_eq!(g.obstacles[5].y, -CENTERED_PIPE_POSITION - 8_000);
}

#[test]
fn pipe_just_on_screen_is_not_recycled() {
    let o = Obstacle { pipe_direction: -1, x: -320_000, y: 5 };
    let r = o.advanced(512, 0, 0);
    assert_eq!(r, o);
    let r = o.advanced(512, 1, 0);
    assert_eq!(r.x, -320_150 + RECYCLE_DISTANCE);
    assert_eq!(r.y, -CENTERED_PIPE_POSITION);
}

#[test]
fn flap_frame_on_square_screen() {
    let mut g = GameManager::new_with(512, 512, &offsets());
    let moved = g.bird.fly(100, true);
    assert_eq!(moved.velocity, 300);
    assert_eq!(moved.height, 30_000);
    assert!(g.collides(moved.height));
    let fresh = vec![-4_000, 0, 4_000, 0, 0];
    g.update_bird_with(100, true, &fresh);
    assert_eq!(g.bird, Bird { velocity: 0, height: 0 });
    check_layout(&g.obstacles, 512, &fresh);
}

#[test]
fn falling_matches_closed_form() {
    let dt: i64 = 20;
    let g = GRAVITY * dt / MILLI;
    let mut b = Bird { velocity: 0, height: 0 };
    for n in 1..=50i64 {
        b = b.fly(dt as u32, false);
        assert_eq!(b.velocity, -n * g);
        assert_eq!(b.height, -g * dt * (n * (n + 1) / 2));
    }
    // From rest at the origin the bird dies in the first frame on a
    // 512-unit screen.
    let mut m = GameManager::new_with(512, 512, &offsets());
    let moved = m.bird.fly(20, false);
    assert!(m.collides(moved.height));
    m.update_bird_with(20, false, &offsets());
    assert_eq!(m.bird, Bird { velocity: 0, height: 0 });
}

#[test]
fn orientation_is_clamped() {
    assert_eq!(Bird { velocity: 300, height: 0 }.orientation(), 600);
    assert_eq!(Bird { velocity: -60, height: 0 }.orientation(), -120);
    assert_eq!(Bird { velocity: 675, height: 0 }.orientation(), 1_350);
    assert_eq!(Bird { velocity: 5_000, height: 0 }.orientation(), 1_350);
    assert_eq!(Bird { velocity: -676, height: 0 }.orientation(), -1_350);
    assert_eq!(Bird { velocity: i64::MIN, height: 0 }.orientation(), -1_350);
}

#[test]
fn collision_needs_both_axes() {
    let g = GameManager::new_with(512, 0, &offsets());
    // Pair 0 stands at x = 0, the upper pipe centred at 348 units.
    assert!(g.collides(348_000));
    assert!(g.collides(348_000 - 287_999));
    assert!(!g.collides(348_000 - 288_000));
    let mut far = g.clone();
    far.obstacles[0].x = 64_000;
    far.obstacles[1].x = 64_000;
    assert!(!far.collides(348_000));
    far.obstacles[0].x = -63_999;
    assert!(far.collides(348_000));
}

#[test]
fn frame_moves_pipes_before_the_bird() {
    let mut g = GameManager::new_with(512, 0, &offsets());
    g.bird = Bird { velocity: 0, height: 2_000_000 };
    // Pair 1 will scroll onto the bird's column during the frame.
    g.obstacles[2].x = 63_000 + OBSTACLE_SCROLL_SPEED * 10;
    g.obstacles[3].x = 63_000 + OBSTACLE_SCROLL_SPEED * 10;
    g.obstacles[2].y = 2_000_000;
    g.obstacles[0].x = 5_000_000;
    g.obstacles[1].x = 5_000_000;
    let fresh = vec![0, 0, 0, 0, 0];
    g.frame_with(10, false, 0, &fresh);
    assert_eq!(g.bird, Bird { velocity: 0, height: 0 });
    check_layout(&g.obstacles, 512, &fresh);
}

#[test]
fn range_checks() {
    let b = Bird { velocity: i64::MIN + 10, height: 0 };
    assert!(!b.can_fly(100, false));
    assert!(b.can_fly(100, true));
    let b = Bird { velocity: 0, height: i64::MIN + 10 };
    assert!(!b.can_fly(100, false));
    let mut g = GameManager::new_with(512, 512, &offsets());
    assert!(g.can_update_obstacles(u32::MAX));
    g.obstacles[9].x = i64::MIN + 100;
    assert!(!g.can_update_obstacles(1));
    assert!(g.can_update_obstacles(0));
}

#[test]
fn random_offsets_are_valid_and_vary() {
    let mut seen = Vec::new();
    for _ in 0..200 {
        let o = generate_offset();
        assert!(-WORLD_OFFSET_BOUND <= o && o < WORLD_OFFSET_BOUND);
        assert_eq!(o % PIXEL_RATIO, 0);
        seen.push(o);
    }
    assert!(seen.iter().any(|&o| o != seen[0]));
    assert!(seen.iter().any(|&o| o != -WORLD_OFFSET_BOUND));
    let offs = generate_offsets();
    assert_eq!(offs.len(), OBSTACLE_AMOUNT);
    let obs = spawn_random_obstacles(512);
    let drawn: Vec<i64> = (0..OBSTACLE_AMOUNT).map(|k| obs[2 * k].y - CENTERED_PIPE_POSITION).collect();
    check_layout(&obs, 512, &drawn);
    let g = GameManager::new(512, 512);
    assert_eq!(g.bird, Bird { velocity: 0, height: 0 });
    assert_eq!(g.obstacles.len(), OBSTACLE_COUNT);
}

#[test]
fn random_frames_keep_pairs_together() {
    let mut g = GameManager::new(512, 0);
    for i in 0..500u32 {
        g.update_obstacles(16);
        g.update_bird(16, i % 7 == 0);
        for k in 0..OBSTACLE_AMOUNT {
            let upper = g.obstacles[2 * k];
            let lower = g.obstacles[2 * k + 1];
            assert_eq!(upper.x, lower.x);
            assert_eq!(upper.y - CENTERED_PIPE_POSITION, lower.y + CENTERED_PIPE_POSITION);
        }
    }
}

#[test]
fn spawn_helpers() {
    assert_eq!(spawn_obstacle(1, 2, -1), Obstacle { pipe_direction: -1, x: 1, y: 2 });
    check_layout(&spawn_obstacles(0, &offsets()), 0, &OFFSETS);
    check_layout(&spawn_obstacles(u32::MAX, &offsets()), u32::MAX as i64, &OFFSETS);
}

#[test]
fn tilt_of_a_death_frame_is_kept() {
    let mut g = GameManager::new_with(512, 512, &offsets());
    assert_eq!(g.tilt, 0);
    g.update_bird_with(100, true, &offsets());
    assert_eq!(g.bird, Bird { velocity: 0, height: 0 });
    // 300 units per second over 7.5 per degree is 40 degrees.
    assert_eq!(g.tilt, 600);
    g.update_obstacles_with(16, 0);
    assert_eq!(g.tilt, 600);
    g.reset_with(&offsets());
    assert_eq!(g.tilt, 600);
    g.update_bird_with(10, false, &offsets());
    assert_eq!(g.tilt, -40);
}

#[test]
fn offset_is_sample_times_pixel_ratio() {
    assert_eq!(offset_from_sample(10), 40);
    assert_eq!(offset_from_sample(-30_000), -WORLD_OFFSET_BOUND);
    assert_eq!(offset_from_sample(29_999), 119_996);
    for o in generate_offsets() {
        assert_eq!(o % PIXEL_RATIO, 0);
        assert!(-WORLD_OFFSET_BOUND <= o && o < WORLD_OFFSET_BOUND);
    }
}
