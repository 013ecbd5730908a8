use buddhabrot::compositor::Compositor;
use buddhabrot::grid::{Grid, Pixel};
use buddhabrot::histogram::Histogram;
use buddhabrot::normalize::{rescale, Intensity};
use buddhabrot::trajectory::Trajectory;

fn histogram_of(grid: Grid, counts: &[u64]) -> Histogram {
    let mut histogram = Histogram::new(grid);
    for (place, &count) in counts.iter().enumerate() {
        let pixel = Pixel { x: place % grid.width(), y: place / grid.width() };
        for _ in 0..count {
            assert!(histogram.increment(pixel));
        }
    }
    histogram
}

#[test]
fn rescale_rounds_to_the_nearest_integer() {
    assert_eq!(rescale(1, 3), 85);
    assert_eq!(rescale(2, 3), 170);
    assert_eq!(rescale(1, 4), 64);
    assert_eq!(rescale(3, 4), 191);
    assert_eq!(rescale(1, 1000), 0);
    assert_eq!(rescale(2, 1000), 1);
    assert_eq!(rescale(999, 1000), 255);
    assert_eq!(rescale(997, 1000), 254);
}

#[test]
fn rescale_rounds_halves_up() {
    assert_eq!(rescale(1, 2), 128);
    assert_eq!(rescale(1, 510), 1);
    assert_eq!(rescale(3, 510), 2);
    assert_eq!(rescale(5, 10), 128);
}

#[test]
fn rescale_of_the_peak_is_full() {
    for peak in [1u64, 2, 3, 255, 256, 1000, 65535, u64::MAX - 1, u64::MAX] {
        assert_eq!(rescale(peak, peak), 255);
        assert_eq!(rescale(0, peak), 0);
    }
}

#[test]
fn rescale_with_peak_zero_is_zero() {
    assert_eq!(rescale(0, 0), 0);
    assert_eq!(rescale(7, 0), 0);
    assert_eq!(rescale(u64::MAX, 0), 0);
}

#[test]
fn rescale_never_exceeds_full() {
    assert_eq!(rescale(10, 5), 255);
    assert_eq!(rescale(u64::MAX, 1), 255);
    assert_eq!(rescale(u64::MAX, u64::MAX / 2), 255);
}

#[test]
fn rescale_is_monotone() {
    for peak in [1u64, 7, 100, 255, 1000] {
        let mut last = 0u8;
        for count in 0..=peak {
            let level = rescale(count, peak);
            assert!(level >= last);
            last = level;
        }
        assert_eq!(last, 255);
    }
}

#[test]
fn rescale_stays_within_half_a_step() {
    for peak in [1u128, 3, 7, 100, 254, 255, 256, 511, 1000] {
        for count in 0..=peak {
            let level = rescale(count as u64, peak as u64) as u128;
            // |level - 255 * count / peak| <= 1/2, times 2 * peak
            let exact = 510 * count;
            let got = 2 * peak * level;
            assert!(got <= exact + peak);
            assert!(exact < got + peak);
        }
    }
}

#[test]
fn brightest_pixel_is_full_and_the_rest_in_proportion() {
    let grid = Grid::new(3, 2).unwrap();
    let histogram = histogram_of(grid, &[0, 1, 2, 4, 3, 4]);
    let intensity = Intensity::of(&histogram);
    assert_eq!(intensity.levels(), &vec![0u8, 64, 128, 255, 191, 255]);
    assert!(intensity.grid().same_as(&grid));
    assert_eq!(histogram.counts(), &vec![0u64, 1, 2, 4, 3, 4]);
}

#[test]
fn empty_histogram_is_all_black() {
    let grid = Grid::new(3, 2).unwrap();
    let intensity = Intensity::of(&Histogram::new(grid));
    assert_eq!(intensity.levels(), &vec![0u8; 6]);
}

#[test]
fn single_hit_is_full() {
    let grid = Grid::new(2, 2).unwrap();
    let histogram = histogram_of(grid, &[0, 0, 1, 0]);
    assert_eq!(Intensity::of(&histogram).levels(), &vec![0u8, 0, 255, 0]);
}

#[test]
fn level_at_reads_by_pixel() {
    let grid = Grid::new(3, 2).unwrap();
    let intensity = Intensity::of(&histogram_of(grid, &[0, 1, 2, 4, 3, 4]));
    assert_eq!(intensity.level_at(Pixel { x: 0, y: 0 }), Some(0));
    assert_eq!(intensity.level_at(Pixel { x: 2, y: 0 }), Some(128));
    assert_eq!(intensity.level_at(Pixel { x: 0, y: 1 }), Some(255));
    assert_eq!(intensity.level_at(Pixel { x: 1, y: 1 }), Some(191));
    assert_eq!(intensity.level_at(Pixel { x: 3, y: 0 }), None);
    assert_eq!(intensity.level_at(Pixel { x: 0, y: 2 }), None);
}

#[test]
fn channels_are_normalized_each_by_its_own_peak() {
    let grid = Grid::new(2, 1).unwrap();
    let mut compositor = Compositor::new(grid, &vec![10, 2]);
    let mut long = Trajectory::begin(10);
    long.visit(Some(Pixel { x: 0, y: 0 }), false);
    long.visit(Some(Pixel { x: 0, y: 0 }), false);
    long.visit(Some(Pixel { x: 0, y: 0 }), false);
    long.visit(Some(Pixel { x: 1, y: 0 }), true);
    let mut short = Trajectory::begin(10);
    short.visit(Some(Pixel { x: 1, y: 0 }), false);
    short.visit(Some(Pixel { x: 1, y: 0 }), true);
    compositor.record(&long);
    compositor.record(&short);
    assert_eq!(compositor.channel(0).unwrap().histogram().counts(), &vec![3u64, 3]);
    assert_eq!(compositor.channel(1).unwrap().histogram().counts(), &vec![0u64, 2]);
    let grids = compositor.normalize();
    assert_eq!(grids.len(), 2);
    assert_eq!(grids[0].levels(), &vec![255u8, 255]);
    assert_eq!(grids[1].levels(), &vec![0u8, 255]);
    assert_eq!(compositor.channel(0).unwrap().normalize().levels(), &vec![255u8, 255]);
}
