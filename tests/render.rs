use raytrace::error::PipelineError;
use raytrace::render::{
    channel_level, render, render_row, render_with, row_pause, ProgressReporter, GREEN_LEVEL,
    MIN_ROW_MICROS,
};

fn reference_pixels(columns: usize, rows: usize) -> Vec<u8> {
    let mut pixels = vec![0u8; 3 * columns * rows];
    for row in 0..rows {
        for col in 0..columns {
            let r = 0.1 + (col as f32) * 0.9 / (columns as f32 - 1.0);
            let g = 0.5;
            let b = 0.1 + (row as f32) * 0.9 / (rows as f32 - 1.0);
            let i = (row * columns + col) * 3;
            pixels[i] = (r * 255.9999) as u8;
            pixels[i + 1] = (g * 255.9999) as u8;
            pixels[i + 2] = (b * 255.9999) as u8;
        }
    }
    pixels
}

#[test]
fn renders_two_by_two() {
    let mut pixels = vec![0u8; 12];
    assert!(render(&mut pixels, (2, 2)).is_ok());
    assert_eq!(pixels, vec![25, 127, 25, 255, 127, 25, 25, 127, 255, 255, 127, 255]);
}

#[test]
fn first_pixel_red_is_truncated_tenth() {
    let mut pixels = vec![0u8; 12];
    render(&mut pixels, (2, 2)).unwrap();
    assert_eq!(pixels[0], ((0.1f64 + 0.0 * 0.9 / 1.0) * 255.9999) as u8);
}

#[test]
fn two_by_one_is_rejected() {
    let mut pixels = vec![7u8; 6];
    assert!(matches!(render(&mut pixels, (2, 1)), Err(PipelineError::InvalidDimensions)));
    assert_eq!(pixels, vec![7u8; 6]);
}

#[test]
fn one_column_is_rejected() {
    let mut pixels = vec![7u8; 6];
    assert!(matches!(render(&mut pixels, (1, 2)), Err(PipelineError::InvalidDimensions)));
    assert_eq!(pixels, vec![7u8; 6]);
}

#[test]
fn wrong_buffer_length_is_rejected() {
    let mut pixels = vec![7u8; 11];
    assert!(matches!(render(&mut pixels, (2, 2)), Err(PipelineError::BufferLength)));
    assert_eq!(pixels, vec![7u8; 11]);
    let mut huge = vec![0u8; 3];
    assert!(matches!(render(&mut huge, (usize::MAX, 2)), Err(PipelineError::BufferLength)));
}

#[test]
fn matches_float_reference_at_default_size() {
    let (columns, rows) = (600, 450);
    let mut pixels = vec![0u8; 3 * columns * rows];
    render(&mut pixels, (columns, rows)).unwrap();
    assert_eq!(pixels, reference_pixels(columns, rows));
}

#[test]
fn matches_float_reference_on_small_sizes() {
    for columns in 2..40 {
        for rows in 2..6 {
            let mut pixels = vec![0u8; 3 * columns * rows];
            render(&mut pixels, (columns, rows)).unwrap();
            assert_eq!(pixels, reference_pixels(columns, rows));
        }
    }
}

#[test]
fn channel_levels_at_ends() {
    assert_eq!(channel_level(0, 2), 25);
    assert_eq!(channel_level(1, 2), 255);
    assert_eq!(channel_level(0, 600), 25);
    assert_eq!(channel_level(599, 600), 255);
    assert_eq!(channel_level(1, 3), 140);
    assert_eq!(GREEN_LEVEL, 127);
}

#[test]
fn render_is_deterministic() {
    let mut a = vec![0u8; 3 * 7 * 5];
    let mut b = vec![9u8; 3 * 7 * 5];
    render(&mut a, (7, 5)).unwrap();
    render(&mut b, (7, 5)).unwrap();
    assert_eq!(a, b);
}

#[test]
fn render_row_touches_only_its_row() {
    let mut pixels = vec![1u8; 3 * 3 * 3];
    render_row(&mut pixels, (3, 3), 1);
    assert_eq!(&pixels[0..9], &[1u8; 9]);
    assert_eq!(&pixels[9..18], &[25, 127, 140, 140, 127, 140, 255, 127, 140]);
    assert_eq!(&pixels[18..27], &[1u8; 9]);
}

struct Recorder {
    rows: Vec<usize>,
    finished: bool,
}

impl ProgressReporter for Recorder {
    fn advance(&mut self, row: usize) {
        self.rows.push(row);
    }

    fn finish(&mut self) {
        self.finished = true;
    }
}

#[test]
fn progress_advances_once_per_row_in_order() {
    let mut pixels = vec![0u8; 3 * 4 * 3];
    let mut progress = Recorder { rows: Vec::new(), finished: false };
    render_with(&mut pixels, (4, 3), &mut progress).unwrap();
    assert_eq!(progress.rows, vec![0, 1, 2]);
    assert!(progress.finished);
}

#[test]
fn pacing_waits_out_the_floor() {
    assert_eq!(MIN_ROW_MICROS, 10_000);
    assert_eq!(row_pause(2_500, true), 7_500);
    assert_eq!(row_pause(0, true), 10_000);
    assert_eq!(row_pause(10_000, true), 0);
    assert_eq!(row_pause(25_000, true), 0);
    assert_eq!(row_pause(2_500, false), 0);
}

#[test]
fn gradient_runs_from_tenth_to_full_on_every_axis() {
    for n in 2..300 {
        assert_eq!(channel_level(0, n), 25);
        assert_eq!(channel_level(n - 1, n), 255);
        for i in 1..n {
            assert!(channel_level(i - 1, n) <= channel_level(i, n));
        }
    }
}
