use vstd::prelude::*;
use vstd::arithmetic::div_mod::lemma_multiply_divide_lt;

use crate::error::PipelineError;

verus! {

/// Scale factor from an intensity in `[0, 1]` to a byte: `255.9999`, written
/// as the fraction `SCALE_NUM / SCALE_DEN`.
pub const SCALE_NUM: u128 = 2559999;

pub const SCALE_DEN: u128 = 10000;

/// Byte level of the gradient at position `i` along an axis of `n` pixels:
/// the intensity `0.1 + i * 0.9 / (n - 1)` scaled by `255.9999` and
/// truncated, computed exactly over the rationals.
pub open spec fn gradient_level(i: int, n: int) -> int {
    ((n - 1) + 9 * i) * (SCALE_NUM as int) / (10 * (n - 1) * (SCALE_DEN as int))
}

/// Byte level of the constant green channel: `0.5 * 255.9999`, truncated.
pub open spec fn green_level() -> int {
    5 * (SCALE_NUM as int) / (10 * (SCALE_DEN as int))
}

pub const GREEN_LEVEL: u8 = 127;

/// The green channel's constant is `0.5 * 255.9999` truncated.
pub proof fn lemma_green_level()
    ensures
        green_level() == GREEN_LEVEL as int,
{
    assert(5 * 2559999int / 100000int == 127int) by (nonlinear_arith);
}

/// Every gradient level fits in a byte.
pub proof fn lemma_gradient_level_is_byte(i: int, n: int)
    requires
        2 <= n,
        0 <= i < n,
    ensures
        0 <= gradient_level(i, n) <= 255,
{
    let num = ((n - 1) + 9 * i) * 2559999;
    let den = 10 * (n - 1) * 10000;
    assert(0 <= num) by (nonlinear_arith)
        requires 0 <= i, 2 <= n, num == ((n - 1) + 9 * i) * 2559999;
    assert(0 < den) by (nonlinear_arith)
        requires 2 <= n, den == 10 * (n - 1) * 10000;
    assert(num < den * 256) by (nonlinear_arith)
        requires i < n, 0 <= i, 2 <= n, num == ((n - 1) + 9 * i) * 2559999, den == 10 * (n - 1) * 10000;
    lemma_multiply_divide_lt(num, den, 256);
    vstd::arithmetic::div_mod::lemma_div_pos_is_pos(num, den);
}

proof fn lemma_quotient(x: int, d: int, q: int)
    requires
        0 < d,
        0 <= q,
        q * d <= x < (q + 1) * d,
    ensures
        x / d == q,
{
    vstd::arithmetic::div_mod::lemma_div_is_ordered(q * d, x, d);
    vstd::arithmetic::div_mod::lemma_div_by_multiple(q, d);
    assert(d * (q + 1) == (q + 1) * d) by (nonlinear_arith);
    vstd::arithmetic::div_mod::lemma_multiply_divide_lt(x, d, q + 1);
}

/// The gradient runs from level 25 (intensity `0.1`) at the first pixel of
/// an axis to level 255 (intensity `1.0`) at the last, never decreasing in
/// between.
pub proof fn lemma_gradient_ends(i: int, j: int, n: int)
    requires
        2 <= n,
        0 <= i <= j < n,
    ensures
        gradient_level(0, n) == 25,
        gradient_level(n - 1, n) == 255,
        gradient_level(i, n) <= gradient_level(j, n),
{
    let d = 10 * (n - 1) * 10000;
    assert(0 < d) by (nonlinear_arith)
        requires 2 <= n, d == 10 * (n - 1) * 10000;
    assert(25 * d <= (n - 1) * 2559999 < 26 * d) by (nonlinear_arith)
        requires 2 <= n, d == 10 * (n - 1) * 10000;
    lemma_quotient((n - 1) * 2559999, d, 25);
    assert(((n - 1) + 9 * 0) * 2559999 == (n - 1) * 2559999);
    assert(255 * d <= ((n - 1) + 9 * (n - 1)) * 2559999 < 256 * d) by (nonlinear_arith)
        requires 2 <= n, d == 10 * (n - 1) * 10000;
    lemma_quotient(((n - 1) + 9 * (n - 1)) * 2559999, d, 255);
    assert(((n - 1) + 9 * i) * 2559999 <= ((n - 1) + 9 * j) * 2559999) by (nonlinear_arith)
        requires i <= j;
    vstd::arithmetic::div_mod::lemma_div_is_ordered(((n - 1) + 9 * i) * 2559999, ((n - 1) + 9 * j) * 2559999, d);
}

/// The gradient level of position `i` on an axis of `n` pixels.
pub fn channel_level(i: usize, n: usize) -> (r: u8)
    requires
        2 <= n,
        i < n,
    ensures
        r as int == gradient_level(i as int, n as int),
{
    let m: u128 = (n - 1) as u128;
    let k: u128 = i as u128;
    assert(9 * k <= 9 * m + 9) by (nonlinear_arith)
        requires k < m + 1;
    let num: u128 = (m + 9 * k) * SCALE_NUM;
    let den: u128 = 10 * m * SCALE_DEN;
    proof {
        lemma_gradient_level_is_byte(i as int, n as int);
    }
    (num / den) as u8
}

/// Offset of the red byte of pixel `(row, col)` in a row-major RGB8 buffer
/// that is `columns` pixels wide; green and blue follow it.
pub open spec fn pixel_index(row: int, col: int, columns: int) -> int {
    3 * (row * columns + col)
}

/// Offset of the first byte of `row`.
pub open spec fn row_start(row: int, columns: int) -> int {
    pixel_index(row, 0, columns)
}

/// Pixel `(row, col)` of `pixels` holds the gradient colour of a display of
/// `columns` by `rows` pixels.
pub open spec fn pixel_filled(pixels: Seq<u8>, row: int, col: int, columns: int, rows: int) -> bool {
    let k = pixel_index(row, col, columns);
    &&& pixels[k] as int == gradient_level(col, columns)
    &&& pixels[k + 1] as int == green_level()
    &&& pixels[k + 2] as int == gradient_level(row, rows)
}

/// The first `done` rows of `pixels` hold the gradient.
pub open spec fn rows_filled(pixels: Seq<u8>, columns: int, rows: int, done: int) -> bool {
    forall|row: int, col: int|
        0 <= row < done && 0 <= col < columns ==> #[trigger] pixel_filled(pixels, row, col, columns, rows)
}

/// `pixels` is the complete gradient image of a display of `columns` by `rows`.
pub open spec fn rendered(pixels: Seq<u8>, columns: int, rows: int) -> bool {
    &&& pixels.len() == 3 * columns * rows
    &&& rows_filled(pixels, columns, rows, rows)
}

/// A display on which the gradient is defined: both sides at least two pixels.
pub open spec fn valid_display(columns: int, rows: int) -> bool {
    2 <= columns && 2 <= rows
}

/// The three bytes of a pixel lie inside its row.
pub proof fn lemma_pixel_in_row(row: int, col: int, columns: int)
    requires
        0 <= row,
        0 <= col < columns,
    ensures
        row_start(row, columns) <= pixel_index(row, col, columns),
        pixel_index(row, col, columns) + 2 < row_start(row + 1, columns),
{
    assert((row + 1) * columns == row * columns + columns) by (nonlinear_arith);
}

/// Rows are laid out in increasing order.
pub proof fn lemma_row_start_monotone(a: int, b: int, columns: int)
    requires
        0 <= a <= b,
        0 <= columns,
    ensures
        row_start(a, columns) <= row_start(b, columns),
{
    assert(a * columns <= b * columns) by (nonlinear_arith)
        requires a <= b, 0 <= columns;
}

/// The row after the last one starts at the buffer's end.
pub proof fn lemma_row_start_end(columns: int, rows: int)
    ensures
        row_start(rows, columns) == 3 * columns * rows,
{
    assert(3 * (rows * columns) == 3 * columns * rows) by (nonlinear_arith);
}

/// Fills one row of a buffer of the exact size with its gradient colours,
/// leaving every byte outside that row as it was.
pub fn render_row(pixels: &mut Vec<u8>, display: (usize, usize), row: usize)
    requires
        valid_display(display.0 as int, display.1 as int),
        old(pixels)@.len() == 3 * display.0 * display.1,
        row < display.1,
    ensures
        final(pixels)@.len() == old(pixels)@.len(),
        forall|col: int|
            0 <= col < display.0 ==> #[trigger] pixel_filled(final(pixels)@, row as int, col, display.0 as int, display.1 as int),
        forall|k: int|
            0 <= k < old(pixels)@.len() && !(row_start(row as int, display.0 as int) <= k < row_start(row + 1, display.0 as int))
                ==> final(pixels)@[k] == old(pixels)@[k],
{
    let (columns, rows) = display;
    let blue = channel_level(row, rows);
    proof {
        lemma_green_level();
        lemma_row_start_monotone(row + 1, rows as int, columns as int);
        lemma_row_start_end(columns as int, rows as int);
        lemma_pixel_in_row(row as int, 0, columns as int);
    }
    let total: usize = pixels.len();
    let mut col: usize = 0;
    while col < columns
        invariant
            total as int == 3 * columns * rows,
            valid_display(columns as int, rows as int),
            display == (columns, rows),
            row < rows,
            col <= columns,
            blue as int == gradient_level(row as int, rows as int),
            row_start(row + 1, columns as int) <= 3 * columns * rows,
            pixels@.len() == old(pixels)@.len(),
            old(pixels)@.len() == 3 * columns * rows,
            forall|c: int|
                0 <= c < col ==> #[trigger] pixel_filled(pixels@, row as int, c, columns as int, rows as int),
            forall|k: int|
                0 <= k < old(pixels)@.len() && !(row_start(row as int, columns as int) <= k < row_start(row as int, columns as int) + 3 * col)
                    ==> pixels@[k] == old(pixels)@[k],
        decreases columns - col,
    {
        proof {
            lemma_pixel_in_row(row as int, col as int, columns as int);
            assert(pixel_index(row as int, col as int, columns as int) + 2 < total);
        }
        let idx: usize = 3 * (row * columns + col);
        let red = channel_level(col, columns);
        let ghost before = pixels@;
        pixels.set(idx, red);
        pixels.set(idx + 1, GREEN_LEVEL);
        pixels.set(idx + 2, blue);
        assert forall|c: int| 0 <= c < col + 1 implies #[trigger] pixel_filled(
            pixels@,
            row as int,
            c,
            columns as int,
            rows as int,
        ) by {
            if c < col {
                assert(pixel_filled(before, row as int, c, columns as int, rows as int));
            }
        }
        col = col + 1;
    }
    proof {
        lemma_pixel_in_row(row as int, 0, columns as int);
        assert(row_start(row as int, columns as int) + 3 * columns == row_start(row + 1, columns as int)) by {
            assert((row + 1) * columns == row * columns + columns) by (nonlinear_arith);
        }
    }
}

/// Every byte of a buffer of `columns` by `rows` pixels is one channel of one
/// pixel.
pub proof fn lemma_byte_in_pixel(k: int, columns: int, rows: int) -> (rc: (int, int, int))
    requires
        1 <= columns,
        0 <= k < 3 * columns * rows,
    ensures
        0 <= rc.0 < rows,
        0 <= rc.1 < columns,
        0 <= rc.2 < 3,
        k == pixel_index(rc.0, rc.1, columns) + rc.2,
{
    let p = k / 3;
    let ch = k % 3;
    let row = p / columns;
    let col = p % columns;
    vstd::arithmetic::div_mod::lemma_fundamental_div_mod(k, 3);
    vstd::arithmetic::div_mod::lemma_fundamental_div_mod(p, columns);
    vstd::arithmetic::div_mod::lemma_mod_pos_bound(p, columns);
    assert(p < columns * rows) by (nonlinear_arith)
        requires k == 3 * p + ch, 0 <= ch < 3, k < 3 * columns * rows;
    assert(0 <= p) by (nonlinear_arith)
        requires k == 3 * p + ch, 0 <= ch < 3, 0 <= k;
    vstd::arithmetic::div_mod::lemma_div_pos_is_pos(p, columns);
    assert(row < rows) by (nonlinear_arith)
        requires p == columns * row + col, 0 <= col, p < columns * rows, 1 <= columns;
    assert(k == 3 * (row * columns + col) + ch) by (nonlinear_arith)
        requires k == 3 * p + ch, p == columns * row + col;
    (row, col, ch)
}

/// Rendering is deterministic: the gradient image of a display is the only
/// buffer that holds it.
pub proof fn lemma_rendered_unique(a: Seq<u8>, b: Seq<u8>, columns: int, rows: int)
    requires
        valid_display(columns, rows),
        rendered(a, columns, rows),
        rendered(b, columns, rows),
    ensures
        a == b,
{
    assert forall|k: int| 0 <= k < a.len() implies a[k] == b[k] by {
        let (row, col, ch) = lemma_byte_in_pixel(k, columns, rows);
        assert(pixel_filled(a, row, col, columns, rows));
        assert(pixel_filled(b, row, col, columns, rows));
    }
    assert(a =~= b);
}

/// `len` bytes are exactly three bytes per pixel of a display of `columns`
/// by `rows`.
pub fn buffer_fits(len: usize, columns: usize, rows: usize) -> (r: bool)
    ensures
        r == (len == 3 * columns * rows),
{
    assert(3 * columns * rows == columns * rows * 3) by (nonlinear_arith);
    match columns.checked_mul(rows) {
        Some(n) => match n.checked_mul(3) {
            Some(need) => need == len,
            None => false,
        },
        None => false,
    }
}

/// Receives the renderer's progress: `advance` after each completed row, in
/// increasing row order, and `finish` once every row is done. A verified
/// implementor keeps, as ghost state, the record of what it was told and
/// overrides `reported` and `finished` to expose it; the defaults only let
/// unverified code implement the trait.
pub trait ProgressReporter {
    /// The rows reported so far, in the order they were reported.
    closed spec fn reported(&self) -> Seq<usize> {
        Seq::empty()
    }

    /// Whether `finish` has been called.
    closed spec fn finished(&self) -> bool {
        false
    }

    fn advance(&mut self, row: usize)
        ensures
            final(self).reported() == old(self).reported().push(row),
            final(self).finished() == old(self).finished(),
    ;

    fn finish(&mut self)
        ensures
            final(self).reported() == old(self).reported(),
            final(self).finished(),
    ;
}

/// A reporter that shows nothing and only keeps the record.
pub struct Silent {
    rows: Ghost<Seq<usize>>,
    done: Ghost<bool>,
}

impl Silent {
    pub fn new() -> (r: Silent)
        ensures
            r.reported() == Seq::<usize>::empty(),
            !r.finished(),
    {
        Silent { rows: Ghost(Seq::empty()), done: Ghost(false) }
    }
}

impl ProgressReporter for Silent {
    closed spec fn reported(&self) -> Seq<usize> {
        self.rows@
    }

    closed spec fn finished(&self) -> bool {
        self.done@
    }

    fn advance(&mut self, row: usize) {
        self.rows = Ghost(self.rows@.push(row));
    }

    fn finish(&mut self) {
        self.done = Ghost(true);
    }
}

/// The rows `0, 1, ..., rows - 1` in order.
pub open spec fn row_sequence(rows: nat) -> Seq<usize> {
    Seq::new(rows, |i: int| i as usize)
}

/// Fills `pixels` with the gradient image of `display` (columns, rows), one
/// row at a time in increasing order, telling `progress` after each row and
/// finishing it after the last.
/// A display side under two pixels, or a buffer that does not hold exactly
/// three bytes per pixel, is refused and the buffer left untouched.
pub fn render_with<P: ProgressReporter>(pixels: &mut Vec<u8>, display: (usize, usize), progress: &mut P) -> (r: Result<(), PipelineError>)
    ensures
        !valid_display(display.0 as int, display.1 as int) ==> r matches Err(PipelineError::InvalidDimensions),
        valid_display(display.0 as int, display.1 as int) && old(pixels)@.len() != 3 * display.0 * display.1
            ==> r matches Err(PipelineError::BufferLength),
        r is Err ==> final(pixels)@ == old(pixels)@ && *final(progress) == *old(progress),
        valid_display(display.0 as int, display.1 as int) && old(pixels)@.len() == 3 * display.0 * display.1 ==> {
            &&& r is Ok
            &&& rendered(final(pixels)@, display.0 as int, display.1 as int)
            &&& final(progress).reported() == old(progress).reported() + row_sequence(display.1 as nat)
            &&& final(progress).finished()
        },
{
    let (columns, rows) = display;
    if columns < 2 || rows < 2 {
        return Err(PipelineError::InvalidDimensions);
    }
    if !buffer_fits(pixels.len(), columns, rows) {
        return Err(PipelineError::BufferLength);
    }
    let mut row: usize = 0;
    while row < rows
        invariant
            valid_display(columns as int, rows as int),
            display == (columns, rows),
            row <= rows,
            pixels@.len() == 3 * columns * rows,
            rows_filled(pixels@, columns as int, rows as int, row as int),
            progress.reported() == old(progress).reported() + row_sequence(row as nat),
            progress.finished() == old(progress).finished(),
        decreases rows - row,
    {
        let ghost before = pixels@;
        render_row(pixels, display, row);
        assert forall|rw: int, c: int| 0 <= rw < row + 1 && 0 <= c < columns implies #[trigger] pixel_filled(
            pixels@,
            rw,
            c,
            columns as int,
            rows as int,
        ) by {
            if rw < row {
                assert(pixel_filled(before, rw, c, columns as int, rows as int));
                lemma_pixel_in_row(rw, c, columns as int);
                lemma_row_start_monotone(rw + 1, row as int, columns as int);
                lemma_row_start_monotone(row as int, rows as int, columns as int);
                lemma_row_start_end(columns as int, rows as int);
                let k = pixel_index(rw, c, columns as int);
                assert(pixels@[k] == before[k]);
                assert(pixels@[k + 1] == before[k + 1]);
                assert(pixels@[k + 2] == before[k + 2]);
            } else {
                assert(pixel_filled(pixels@, row as int, c, display.0 as int, display.1 as int));
            }
        }
        progress.advance(row);
        assert(progress.reported() =~= old(progress).reported() + row_sequence((row + 1) as nat));
        row = row + 1;
    }
    progress.finish();
    Ok(())
}

/// Fills `pixels` with the gradient image of `display` without reporting
/// progress; see `render_with`.
pub fn render(pixels: &mut Vec<u8>, display: (usize, usize)) -> (r: Result<(), PipelineError>)
    ensures
        !valid_display(display.0 as int, display.1 as int) ==> r matches Err(PipelineError::InvalidDimensions),
        valid_display(display.0 as int, display.1 as int) && old(pixels)@.len() != 3 * display.0 * display.1
            ==> r matches Err(PipelineError::BufferLength),
        r is Err ==> final(pixels)@ == old(pixels)@,
        valid_display(display.0 as int, display.1 as int) && old(pixels)@.len() == 3 * display.0 * display.1 ==> {
            &&& r is Ok
            &&& rendered(final(pixels)@, display.0 as int, display.1 as int)
        },
{
    let mut quiet = Silent::new();
    render_with(pixels, display, &mut quiet)
}

/// Shortest time a row may take when pacing is on, in microseconds.
pub const MIN_ROW_MICROS: u64 = 10000;

/// How long to wait after a row that took `elapsed_micros`, so that with
/// pacing on no row completes in under `MIN_ROW_MICROS`.
pub fn row_pause(elapsed_micros: u64, pacing: bool) -> (r: u64)
    ensures
        pacing && elapsed_micros < MIN_ROW_MICROS ==> r == MIN_ROW_MICROS - elapsed_micros,
        !(pacing && elapsed_micros < MIN_ROW_MICROS) ==> r == 0,
        elapsed_micros + r >= MIN_ROW_MICROS || !pacing,
{
    if pacing && elapsed_micros < MIN_ROW_MICROS {
        MIN_ROW_MICROS - elapsed_micros
    } else {
        0
    }
}

} // verus!
