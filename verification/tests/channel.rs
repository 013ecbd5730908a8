use buddhabrot::channel::Channel;
use buddhabrot::compositor::Compositor;
use buddhabrot::grid::{Grid, Pixel};
use buddhabrot::trajectory::{Status, Trajectory};

/// A trajectory that stays on `pixel` and escapes with step number `len`.
fn escaping_at(len: usize, pixel: Pixel) -> Trajectory {
    let mut trajectory = Trajectory::begin(len);
    for step in 1..=len {
        trajectory.visit(Some(pixel), step == len);
    }
    assert_eq!(trajectory.status(), Status::Escaped);
    assert_eq!(trajectory.len(), len);
    trajectory
}

fn total_hits(channel: &Channel) -> u64 {
    channel.histogram().counts().iter().sum()
}

#[test]
fn tiered_caps_select_the_channels() {
    let grid = Grid::new(10, 10).unwrap();
    let pixel = Pixel { x: 4, y: 6 };
    let caps = vec![50usize, 40, 30];
    let cases: [(usize, [bool; 3]); 4] = [
        (10, [true, true, true]),
        (35, [true, true, false]),
        (45, [true, false, false]),
        (60, [false, false, false]),
    ];
    for (len, expected) in cases {
        let mut compositor = Compositor::new(grid, &caps);
        let trajectory = escaping_at(len, pixel);
        compositor.record(&trajectory);
        for (index, takes) in expected.iter().enumerate() {
            let channel = compositor.channel(index).unwrap();
            assert_eq!(channel.accepts(&trajectory), *takes);
            let hits = if *takes { len as u64 } else { 0 };
            assert_eq!(total_hits(channel), hits);
            assert_eq!(channel.histogram().count(pixel), Some(hits));
        }
    }
}

#[test]
fn channel_takes_a_trajectory_exactly_up_to_its_cap() {
    let grid = Grid::new(3, 3).unwrap();
    let pixel = Pixel { x: 1, y: 1 };
    for len in 1..=12usize {
        let mut channel = Channel::new(grid, 8);
        let recorded = channel.record(&escaping_at(len, pixel));
        if len <= 8 {
            assert_eq!(recorded, len);
            assert_eq!(channel.histogram().count(pixel), Some(len as u64));
        } else {
            assert_eq!(recorded, 0);
            assert_eq!(channel.histogram().count(pixel), Some(0));
        }
    }
}

#[test]
fn channel_with_cap_zero_takes_nothing() {
    let grid = Grid::new(3, 3).unwrap();
    let mut channel = Channel::new(grid, 0);
    assert_eq!(channel.cap(), 0);
    assert_eq!(channel.record(&escaping_at(1, Pixel { x: 0, y: 0 })), 0);
    assert_eq!(total_hits(&channel), 0);
}

#[test]
fn trajectory_that_did_not_escape_is_discarded() {
    let grid = Grid::new(3, 3).unwrap();
    let mut exhausted = Trajectory::begin(5);
    for _ in 0..5 {
        exhausted.visit(Some(Pixel { x: 1, y: 1 }), false);
    }
    assert_eq!(exhausted.status(), Status::Exhausted);
    let mut running = Trajectory::begin(5);
    running.visit(Some(Pixel { x: 1, y: 1 }), false);
    assert_eq!(running.status(), Status::Running);

    let mut channel = Channel::new(grid, 100);
    assert!(!channel.accepts(&exhausted));
    assert!(!channel.accepts(&running));
    assert_eq!(channel.record(&exhausted), 0);
    assert_eq!(channel.record(&running), 0);
    assert_eq!(total_hits(&channel), 0);
}

#[test]
fn record_counts_every_step_on_its_pixel() {
    let grid = Grid::new(3, 2).unwrap();
    let mut trajectory = Trajectory::begin(10);
    trajectory.visit(Some(Pixel { x: 0, y: 0 }), false);
    trajectory.visit(Some(Pixel { x: 2, y: 1 }), false);
    trajectory.visit(Some(Pixel { x: 0, y: 0 }), false);
    trajectory.visit(Some(Pixel { x: 1, y: 0 }), false);
    trajectory.visit(Some(Pixel { x: 0, y: 0 }), true);
    let mut channel = Channel::new(grid, 10);
    assert_eq!(channel.record(&trajectory), 5);
    assert_eq!(channel.histogram().counts(), &vec![3u64, 1, 0, 0, 0, 1]);
    assert_eq!(channel.record(&trajectory), 5);
    assert_eq!(channel.histogram().counts(), &vec![6u64, 2, 0, 0, 0, 2]);
}

#[test]
fn record_drops_steps_outside_the_grid() {
    let grid = Grid::new(3, 2).unwrap();
    let mut trajectory = Trajectory::begin(10);
    trajectory.visit(None, false);
    trajectory.visit(Some(Pixel { x: 3, y: 0 }), false);
    trajectory.visit(Some(Pixel { x: 1, y: 1 }), false);
    trajectory.visit(Some(Pixel { x: 0, y: 2 }), false);
    trajectory.visit(None, true);
    let mut channel = Channel::new(grid, 10);
    assert_eq!(channel.record(&trajectory), 5);
    assert_eq!(channel.histogram().counts(), &vec![0u64, 0, 0, 0, 1, 0]);
}

#[test]
fn channels_merge_only_with_their_like() {
    let grid = Grid::new(2, 2).unwrap();
    let pixel = Pixel { x: 1, y: 0 };
    let mut channel = Channel::new(grid, 5);
    channel.record(&escaping_at(2, pixel));
    let mut same = Channel::new(grid, 5);
    same.record(&escaping_at(3, pixel));
    let other_cap = Channel::new(grid, 6);
    let other_grid = Channel::new(Grid::new(2, 3).unwrap(), 5);

    assert!(channel.is_compatible(&same));
    assert!(!channel.is_compatible(&other_cap));
    assert!(!channel.is_compatible(&other_grid));
    assert!(!channel.merge(&other_cap));
    assert!(!channel.merge(&other_grid));
    assert_eq!(channel.histogram().counts(), &vec![0u64, 2, 0, 0]);
    assert!(channel.merge(&same));
    assert_eq!(channel.histogram().counts(), &vec![0u64, 5, 0, 0]);
    assert_eq!(channel.cap(), 5);
}

#[test]
fn compositor_keeps_the_caps_in_order() {
    let grid = Grid::new(4, 4).unwrap();
    let compositor = Compositor::new(grid, &vec![30, 50, 40]);
    assert_eq!(compositor.len(), 3);
    assert_eq!(compositor.channel(0).unwrap().cap(), 30);
    assert_eq!(compositor.channel(1).unwrap().cap(), 50);
    assert_eq!(compositor.channel(2).unwrap().cap(), 40);
    assert!(compositor.channel(3).is_none());
    assert_eq!(compositor.max_cap(), 50);
    for index in 0..3 {
        let channel = compositor.channel(index).unwrap();
        assert!(channel.histogram().grid().same_as(&grid));
        assert_eq!(total_hits(channel), 0);
    }
}

#[test]
fn compositor_without_channels_has_cap_zero() {
    let grid = Grid::new(4, 4).unwrap();
    let mut compositor = Compositor::new(grid, &vec![]);
    assert_eq!(compositor.len(), 0);
    assert_eq!(compositor.max_cap(), 0);
    compositor.record(&escaping_at(1, Pixel { x: 0, y: 0 }));
    assert!(compositor.normalize().is_empty());
}

#[test]
fn compositors_merge_channel_by_channel() {
    let grid = Grid::new(2, 1).unwrap();
    let caps = vec![10usize, 3];
    let mut left = Compositor::new(grid, &caps);
    left.record(&escaping_at(2, Pixel { x: 0, y: 0 }));
    let mut right = Compositor::new(grid, &caps);
    right.record(&escaping_at(5, Pixel { x: 1, y: 0 }));
    right.record(&escaping_at(1, Pixel { x: 0, y: 0 }));
    assert!(left.is_compatible(&right));
    assert!(left.merge(&right));
    assert_eq!(left.channel(0).unwrap().histogram().counts(), &vec![3u64, 5]);
    assert_eq!(left.channel(1).unwrap().histogram().counts(), &vec![3u64, 0]);
}

#[test]
fn compositors_that_differ_are_not_merged() {
    let grid = Grid::new(2, 1).unwrap();
    let mut left = Compositor::new(grid, &vec![10, 3]);
    left.record(&escaping_at(2, Pixel { x: 0, y: 0 }));
    let mut other_caps = Compositor::new(grid, &vec![10, 4]);
    other_caps.record(&escaping_at(2, Pixel { x: 0, y: 0 }));
    let fewer = Compositor::new(grid, &vec![10]);
    let other_grid = Compositor::new(Grid::new(1, 2).unwrap(), &vec![10, 3]);
    for other in [&other_caps, &fewer, &other_grid] {
        assert!(!left.is_compatible(other));
        assert!(!left.merge(other));
        assert_eq!(left.channel(0).unwrap().histogram().counts(), &vec![2u64, 0]);
        assert_eq!(left.channel(1).unwrap().histogram().counts(), &vec![2u64, 0]);
    }
}

#[test]
fn merge_all_joins_the_workers() {
    let grid = Grid::new(3, 1).unwrap();
    let caps = vec![20usize, 5];
    let pixel = Pixel { x: 2, y: 0 };
    let workers = 6;
    let hits = 4;
    let mut parts = Vec::new();
    for _ in 0..workers {
        let mut part = Compositor::new(grid, &caps);
        part.record(&escaping_at(hits, pixel));
        part.record(&escaping_at(7, Pixel { x: 0, y: 0 }));
        parts.push(part);
    }
    let mut total = Compositor::new(grid, &caps);
    assert!(total.merge_all(&parts));
    assert_eq!(total.channel(0).unwrap().histogram().counts(), &vec![42u64, 0, 24]);
    assert_eq!(total.channel(1).unwrap().histogram().counts(), &vec![0u64, 0, 24]);
    assert!(total.merge_all(&Vec::new()));
    assert_eq!(total.channel(0).unwrap().histogram().counts(), &vec![42u64, 0, 24]);
}

#[test]
fn merge_all_adds_nothing_unless_every_part_matches() {
    let grid = Grid::new(3, 1).unwrap();
    let caps = vec![20usize, 5];
    let pixel = Pixel { x: 1, y: 0 };
    let mut good = Compositor::new(grid, &caps);
    good.record(&escaping_at(3, pixel));
    let mut bad = Compositor::new(grid, &vec![20, 6]);
    bad.record(&escaping_at(3, pixel));
    let parts = vec![good, bad];
    let mut total = Compositor::new(grid, &caps);
    total.record(&escaping_at(1, pixel));
    assert!(!total.merge_all(&parts));
    assert_eq!(total.channel(0).unwrap().histogram().counts(), &vec![0u64, 1, 0]);
    assert_eq!(total.channel(1).unwrap().histogram().counts(), &vec![0u64, 1, 0]);
}

#[test]
fn channel_counts_single_hits() {
    let grid = Grid::new(2, 2).unwrap();
    let mut channel = Channel::new(grid, 0);
    assert!(channel.increment(Pixel { x: 1, y: 0 }));
    assert!(channel.increment(Pixel { x: 1, y: 0 }));
    assert!(channel.increment(Pixel { x: 0, y: 1 }));
    assert!(!channel.increment(Pixel { x: 2, y: 0 }));
    assert_eq!(channel.histogram().counts(), &vec![0u64, 2, 1, 0]);
    assert_eq!(channel.cap(), 0);
}

#[test]
fn compositor_counts_a_hit_in_one_channel_only() {
    let grid = Grid::new(2, 2).unwrap();
    let mut compositor = Compositor::new(grid, &vec![9, 8, 7]);
    assert!(compositor.increment(1, Pixel { x: 1, y: 1 }));
    assert!(compositor.increment(1, Pixel { x: 1, y: 1 }));
    assert!(compositor.increment(2, Pixel { x: 0, y: 0 }));
    assert!(!compositor.increment(3, Pixel { x: 0, y: 0 }));
    assert!(!compositor.increment(0, Pixel { x: 0, y: 2 }));
    assert_eq!(compositor.channel(0).unwrap().histogram().counts(), &vec![0u64, 0, 0, 0]);
    assert_eq!(compositor.channel(1).unwrap().histogram().counts(), &vec![0u64, 0, 0, 2]);
    assert_eq!(compositor.channel(2).unwrap().histogram().counts(), &vec![1u64, 0, 0, 0]);
}
