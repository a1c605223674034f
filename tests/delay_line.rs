use drum_synth::delay_line::{DelayLine, MAX_DELAY};

#[test]
fn new_line_is_silent() {
    let mut line: DelayLine<f32> = DelayLine::new(MAX_DELAY, 0.0);
    assert_eq!(line.capacity(), 4096);
    assert_eq!(line.write_position(), 0);
    assert_eq!(line.read_position(), 0);
    for d in 0..MAX_DELAY {
        assert_eq!(line.tap(d), 0.0);
    }
}

#[test]
fn impulse_returns_after_delay() {
    for &delay in &[1usize, 2, 44, 100, MAX_DELAY - 1] {
        let mut line: DelayLine<f32> = DelayLine::new(MAX_DELAY, 0.0);
        for t in 0..=delay {
            let out = line.tap(delay);
            if t == delay {
                assert_eq!(out, 1.0);
            } else {
                assert_eq!(out, 0.0);
            }
            line.push(if t == 0 { 1.0 } else { 0.0 });
        }
    }
}

#[test]
fn impulse_returns_after_wrapping() {
    let mut line: DelayLine<i32> = DelayLine::new(8, 0);
    for _ in 0..13 {
        line.tap(3);
        line.push(0);
    }
    assert_eq!(line.write_position(), 5);
    line.tap(3);
    line.push(9);
    line.tap(3);
    line.push(0);
    line.tap(3);
    line.push(0);
    assert_eq!(line.tap(3), 9);
    assert_eq!(line.read_position(), 5);
}

#[test]
fn delay_is_clamped_to_capacity_minus_one() {
    let mut line: DelayLine<u32> = DelayLine::new(4, 0);
    line.push(1);
    line.push(2);
    assert_eq!(line.write_position(), 2);
    assert_eq!(line.tap(100), 0);
    assert_eq!(line.read_position(), 3);
    assert_eq!(line.tap(3), 0);
    assert_eq!(line.read_position(), 3);
    assert_eq!(line.tap(2), 1);
    assert_eq!(line.read_position(), 0);
}

#[test]
fn zero_delay_reads_the_oldest_sample() {
    let mut line: DelayLine<u32> = DelayLine::new(3, 0);
    line.push(1);
    line.push(2);
    line.push(3);
    assert_eq!(line.write_position(), 0);
    assert_eq!(line.tap(0), 1);
    assert_eq!(line.read_position(), 0);
}

#[test]
fn write_cursor_wraps() {
    let mut line: DelayLine<u8> = DelayLine::new(5, 0);
    for i in 0..5u8 {
        assert_eq!(line.write_position(), i as usize);
        line.push(i);
    }
    assert_eq!(line.write_position(), 0);
    line.push(7);
    assert_eq!(line.write_position(), 1);
}

#[test]
fn reset_clears_samples_and_cursors() {
    let mut line: DelayLine<f32> = DelayLine::new(MAX_DELAY, 0.0);
    for i in 0..5000 {
        line.tap(37);
        line.push(i as f32 * 0.25 - 3.0);
    }
    line.reset(0.0);
    assert_eq!(line.capacity(), MAX_DELAY);
    assert_eq!(line.write_position(), 0);
    assert_eq!(line.read_position(), 0);
    for d in 0..MAX_DELAY {
        assert_eq!(line.tap(d), 0.0);
    }
}

#[test]
fn reset_keeps_a_small_line_small() {
    let mut line: DelayLine<u32> = DelayLine::new(3, 0);
    line.push(4);
    line.push(5);
    line.tap(1);
    line.reset(9);
    assert_eq!(line.capacity(), 3);
    assert_eq!(line.write_position(), 0);
    assert_eq!(line.read_position(), 0);
    assert_eq!(line.tap(0), 9);
    assert_eq!(line.tap(1), 9);
    assert_eq!(line.tap(2), 9);
}
