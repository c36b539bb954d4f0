use pixels_ray::color::Color;
use pixels_ray::display::quantize;
use pixels_ray::fixed::{tenths, ONE};
use pixels_ray::pixels::{Pixels, Tally};

#[test]
fn new_buffer_is_black_everywhere() {
    let buffer = Pixels::new(3, 2);
    assert_eq!(buffer.width(), 3);
    assert_eq!(buffer.height(), 2);
    assert_eq!(buffer.snapshot(), vec![Color::black(); 6]);
    for y in 0..2 {
        for x in 0..3 {
            assert_eq!(buffer.count_at(x, y), 0);
            assert_eq!(buffer.average_at(x, y), Color::black());
        }
    }
}

#[test]
fn single_pixel_buffer() {
    let mut buffer = Pixels::new(1, 1);
    buffer.add_color(0, 0, Color::new(1, 2, 3));
    assert_eq!(buffer.snapshot(), vec![Color::new(1, 2, 3)]);
}

#[test]
fn one_sample_reads_back_as_itself() {
    let mut buffer = Pixels::new(3, 2);
    let c = Color::new(tenths(4), tenths(2), tenths(1));
    buffer.add_color(2, 1, c);
    assert_eq!(buffer.average_at(2, 1), c);
    assert_eq!(buffer.count_at(2, 1), 1);
}

#[test]
fn average_is_sum_over_count() {
    let mut buffer = Pixels::new(4, 4);
    let colors = [
        Color::new(ONE, 0, 10),
        Color::new(0, ONE / 2, 11),
        Color::new(ONE / 2, ONE / 2, 12),
        Color::new(1, 1, 0),
    ];
    for c in colors {
        buffer.add_color(1, 2, c);
    }
    assert_eq!(buffer.count_at(1, 2), 4);
    assert_eq!(
        buffer.average_at(1, 2),
        Color::new((ONE + ONE / 2 + 1) / 4, (ONE + 1) / 4, 33 / 4)
    );
    assert_eq!(buffer.average_at(1, 2), Color::new(1_610_612_736, 1_073_741_824, 8));
}

#[test]
fn average_is_not_the_last_write() {
    let mut buffer = Pixels::new(2, 2);
    buffer.add_color(0, 0, Color::white());
    buffer.add_color(0, 0, Color::black());
    assert_eq!(buffer.average_at(0, 0), Color::new(ONE / 2, ONE / 2, ONE / 2));
}

#[test]
fn average_rounds_down() {
    let mut buffer = Pixels::new(1, 1);
    buffer.add_color(0, 0, Color::new(1, 2, 3));
    buffer.add_color(0, 0, Color::new(0, 0, 0));
    buffer.add_color(0, 0, Color::new(1, 3, 4));
    assert_eq!(buffer.average_at(0, 0), Color::new(0, 1, 2));
}

#[test]
fn sums_hold_the_largest_channels() {
    let mut buffer = Pixels::new(1, 1);
    for _ in 0..1000 {
        buffer.add_color(0, 0, Color::new(u64::MAX, u64::MAX - 1, 0));
    }
    assert_eq!(buffer.average_at(0, 0), Color::new(u64::MAX, u64::MAX - 1, 0));
}

#[test]
fn deposit_touches_one_pixel_only() {
    let mut buffer = Pixels::new(3, 2);
    buffer.add_color(1, 0, Color::white());
    let image = buffer.snapshot();
    for (i, c) in image.iter().enumerate() {
        if i == 1 {
            assert_eq!(*c, Color::white());
        } else {
            assert_eq!(*c, Color::black());
        }
    }
}

#[test]
fn snapshot_is_row_major_from_the_bottom() {
    let mut buffer = Pixels::new(3, 2);
    buffer.add_color(0, 0, Color::new(1, 0, 0));
    buffer.add_color(2, 0, Color::new(2, 0, 0));
    buffer.add_color(0, 1, Color::new(3, 0, 0));
    buffer.add_color(2, 1, Color::new(4, 0, 0));
    let reds: Vec<u64> = buffer.snapshot().iter().map(|c| c.r).collect();
    assert_eq!(reds, vec![1, 0, 2, 3, 0, 4]);
}

#[test]
fn snapshot_twice_is_the_same() {
    let mut buffer = Pixels::new(5, 4);
    for i in 0..60u32 {
        buffer.add_color(i % 5, (i / 5) % 4, Color::new(i as u64 * 1000, ONE / (i as u64 + 1), 7));
    }
    let first = buffer.snapshot();
    let second = buffer.snapshot();
    assert_eq!(first, second);
    assert_eq!(buffer.to_display_bytes(), buffer.to_display_bytes());
    assert_eq!(buffer.snapshot(), first);
}

#[test]
fn tally_arithmetic() {
    let t = Tally::empty();
    assert_eq!(t, Tally { r: 0, g: 0, b: 0, count: 0 });
    assert_eq!(t.mean(), Color::black());
    let t = t.add(Color::new(10, 20, 30)).add(Color::new(1, 1, 1));
    assert_eq!(t, Tally { r: 11, g: 21, b: 31, count: 2 });
    assert_eq!(t.mean(), Color::new(5, 10, 15));
}

#[test]
fn quantize_maps_the_unit_interval_to_a_byte() {
    assert_eq!(quantize(0), 0);
    assert_eq!(quantize(ONE), 255);
    assert_eq!(quantize(ONE / 2), 128);
    assert_eq!(quantize(tenths(2)), 51);
    assert_eq!(quantize(tenths(4)), 102);
    assert_eq!(quantize(tenths(7)), 178);
}

#[test]
fn quantize_rounds_to_nearest() {
    // 8421505 is the first raw value whose 255-fold reaches one half.
    assert_eq!(quantize(8_421_504), 0);
    assert_eq!(quantize(8_421_505), 1);
    assert_eq!(quantize(ONE - 1), 255);
}

#[test]
fn quantize_clamps_above_one() {
    assert_eq!(quantize(ONE + 1), 255);
    assert_eq!(quantize(2 * ONE), 255);
    assert_eq!(quantize(u64::MAX), 255);
}

#[test]
fn frame_has_four_bytes_per_pixel() {
    let buffer = Pixels::new(7, 5);
    let bytes = buffer.to_display_bytes();
    assert_eq!(bytes.len(), 7 * 5 * 4);
    for (i, b) in bytes.iter().enumerate() {
        assert_eq!(*b, if i % 4 == 3 { 255 } else { 0 });
    }
}

#[test]
fn frame_turns_the_buffer_upside_down() {
    let mut buffer = Pixels::new(2, 3);
    // bottom left
    buffer.add_color(0, 0, Color::white());
    // top right
    buffer.add_color(1, 2, Color::new(ONE / 2, tenths(2), 0));
    let bytes = buffer.to_display_bytes();
    let mut expected = vec![0u8; 24];
    for p in 0..6 {
        expected[4 * p + 3] = 255;
    }
    // top right is row 0, column 1 of the frame
    expected[4..8].copy_from_slice(&[128, 51, 0, 255]);
    // bottom left is row 2, column 0 of the frame
    expected[16..20].copy_from_slice(&[255, 255, 255, 255]);
    assert_eq!(bytes, expected);
}

#[test]
fn frame_shows_the_average() {
    let mut buffer = Pixels::new(1, 1);
    buffer.add_color(0, 0, Color::white());
    buffer.add_color(0, 0, Color::black());
    buffer.add_color(0, 0, Color::black());
    buffer.add_color(0, 0, Color::black());
    // a quarter: 63.75 rounds to 64
    assert_eq!(buffer.to_display_bytes(), vec![64, 64, 64, 255]);
}
