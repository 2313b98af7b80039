use jfxr::parameter::{BitCrush as BitCrushDepth, BitCrushSweep};
use jfxr::synth::{sample_count, BitCrush, BlockCursor, DelayLine, BLOCK_SIZE};

fn blocks_of(num_samples: usize, block_size: usize) -> Vec<(usize, usize)> {
    let mut cursor = BlockCursor::new(num_samples, block_size);
    let mut out = Vec::new();
    while let Some(block) = cursor.next_block() {
        out.push(block);
    }
    assert!(cursor.is_done());
    out
}

#[test]
fn zero_duration_gives_one_sample() {
    assert_eq!(sample_count(0), 1);
}

#[test]
fn sample_count_keeps_positive_lengths() {
    assert_eq!(sample_count(1), 1);
    assert_eq!(sample_count(13230), 13230);
}

#[test]
fn cursor_walks_in_blocks() {
    assert_eq!(blocks_of(7, 3), vec![(0, 3), (3, 6), (6, 7)]);
    assert_eq!(blocks_of(6, 3), vec![(0, 3), (3, 6)]);
    assert_eq!(blocks_of(5, 10), vec![(0, 5)]);
    assert_eq!(blocks_of(0, 4), vec![]);
    assert_eq!(blocks_of(25000, BLOCK_SIZE), vec![(0, 10240), (10240, 20480), (20480, 25000)]);
}

#[test]
fn cursor_reports_position() {
    let mut cursor = BlockCursor::new(5, 2);
    assert_eq!(cursor.num_samples(), 5);
    assert_eq!(cursor.position(), 0);
    assert!(!cursor.is_done());
    assert_eq!(cursor.next_block(), Some((0, 2)));
    assert_eq!(cursor.position(), 2);
    assert_eq!(cursor.next_block(), Some((2, 4)));
    assert_eq!(cursor.next_block(), Some((4, 5)));
    assert!(cursor.is_done());
    assert_eq!(cursor.next_block(), None);
    assert_eq!(cursor.position(), 5);
}

#[test]
fn blocks_tile_for_every_size() {
    for size in 1..40 {
        let blocks = blocks_of(97, size);
        assert_eq!(blocks[0].0, 0);
        assert_eq!(blocks[blocks.len() - 1].1, 97);
        for w in blocks.windows(2) {
            assert_eq!(w[0].1, w[1].0);
        }
        for b in &blocks {
            assert!(b.0 < b.1 && b.1 - b.0 <= size);
        }
    }
}

fn run_delay(input: &[f64], offsets: &[usize], block_size: usize) -> Vec<f64> {
    let mut line = DelayLine::new(4, 0.0f64);
    let mut out = input.to_vec();
    let mut cursor = BlockCursor::new(input.len(), block_size);
    while let Some((start, end)) = cursor.next_block() {
        for i in start..end {
            out[i] += line.push_and_tap(out[i], offsets[i]);
        }
    }
    out
}

#[test]
fn delay_line_taps_behind_cursor() {
    let mut line = DelayLine::new(3, 0i32);
    assert_eq!(line.len(), 3);
    assert_eq!(line.position(), 0);
    assert_eq!(line.push_and_tap(10, 0), 10);
    assert_eq!(line.push_and_tap(20, 1), 10);
    assert_eq!(line.push_and_tap(30, 2), 10);
    assert_eq!(line.position(), 0);
    assert_eq!(line.push_and_tap(40, 1), 30);
    assert_eq!(line.push_and_tap(50, 100), 30);
    assert_eq!(line.position(), 2);
}

#[test]
fn delay_line_block_invariance() {
    let input: Vec<f64> = (0..23).map(|i| (i as f64) * 0.25 - 2.0).collect();
    let offsets: Vec<usize> = (0..23).map(|i| i % 6).collect();
    let whole = run_delay(&input, &offsets, 23);
    for size in 1..23 {
        assert_eq!(run_delay(&input, &offsets, size), whole);
    }
}

#[test]
fn bit_crush_off_only_without_depth_and_sweep() {
    assert!(!BitCrush::is_active(BitCrushDepth(0), BitCrushSweep(0)));
    assert!(BitCrush::is_active(BitCrushDepth(0), BitCrushSweep(3)));
    assert!(BitCrush::is_active(BitCrushDepth(16), BitCrushSweep(0)));
}

#[test]
fn bit_crush_steps() {
    assert_eq!(BitCrush::quantization_steps(0), 2);
    assert_eq!(BitCrush::quantization_steps(1), 2);
    assert_eq!(BitCrush::quantization_steps(8), 256);
    assert_eq!(BitCrush::quantization_steps(16), 65536);
    assert_eq!(BitCrush::quantization_steps(100), 65536);
}
