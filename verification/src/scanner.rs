//! Matrix-scan bookkeeping: strobe addressing and bitmap assembly.
//!
//! The hardware loop drives the strobe lines and samples the sense
//! lines; every decision it needs is computed here. A [`ScanBuilder`]
//! walks the 15 columns in order: [`ScanBuilder::strobe_levels`] says
//! which level each strobe line must carry for the current column
//! (binary-address strobing: line `k` carries bit `k` of the column
//! index, not a one-hot enable), and [`ScanBuilder::record_column`]
//! stores the sampled sense levels. Only a builder that recorded every
//! column can yield a bitmap ([`ScanBuilder::finish`]), so an I/O fault
//! that aborts a scan can never leave a half-scanned bitmap downstream:
//! the caller drops the builder and retries or keeps the previous
//! bitmap.

use vstd::prelude::*;

verus! {

broadcast use vstd::array::group_array_axioms;

/// Level of strobe line `line` while column `col` is selected: bit
/// `line` of the binary column address.
pub open spec fn strobe_level(col: usize, line: usize) -> bool {
    (col >> line) & 1usize == 1usize
}

/// One scan pass in progress: columns 0..cols_done are recorded.
pub struct ScanBuilder {
    cols_done: usize,
    keys: [[bool; 15]; 5],
}

impl ScanBuilder {
    /// Number of columns recorded so far.
    pub closed spec fn cols_done(self) -> usize {
        self.cols_done
    }

    /// Cell (`row`, `col`) of the bitmap assembled so far.
    pub closed spec fn cell(self, row: int, col: int) -> bool {
        self.keys[row][col]
    }

    /// Whether every column of the matrix has been recorded.
    pub open spec fn complete(self) -> bool {
        self.cols_done() == 15
    }

    /// Start a scan pass: nothing recorded, every cell released.
    pub fn new() -> (s: ScanBuilder)
        ensures
            s.cols_done() == 0,
            forall|r: int, c: int| 0 <= r < 5 && 0 <= c < 15 ==> !s.cell(r, c),
    {
        ScanBuilder { cols_done: 0, keys: [[false; 15]; 5] }
    }

    /// Number of columns recorded so far.
    pub fn columns_recorded(&self) -> (n: usize)
        ensures
            n == self.cols_done(),
    {
        self.cols_done
    }

    /// Whether every column of the matrix has been recorded.
    pub fn is_complete(&self) -> (b: bool)
        ensures
            b == self.complete(),
    {
        self.cols_done == 15
    }

    /// Level each of the 15 strobe lines must carry to select the
    /// current column: line `k` carries bit `k` of the column index.
    pub fn strobe_levels(&self) -> (levels: Vec<bool>)
        requires
            self.cols_done() < 15,
        ensures
            levels.len() == 15,
            forall|b: int| 0 <= b < 15 ==> levels[b] == strobe_level(self.cols_done(), b as usize),
    {
        let col = self.cols_done;
        let mut levels: Vec<bool> = Vec::new();
        let mut b: usize = 0;
        while b < 15
            invariant
                b <= 15,
                levels.len() == b,
                col == self.cols_done(),
                forall|x: int| 0 <= x < b ==> levels[x] == strobe_level(col, x as usize),
            decreases 15 - b,
        {
            levels.push((col >> b) & 1 == 1);
            b += 1;
        }
        levels
    }

    /// Store the sampled sense levels of the current column, one per
    /// row, and move on to the next column. Cells of other columns are
    /// untouched.
    pub fn record_column(&mut self, readings: &[bool; 5])
        requires
            old(self).cols_done() < 15,
        ensures
            final(self).cols_done() == old(self).cols_done() + 1,
            forall|r: int|
                0 <= r < 5 ==> final(self).cell(r, old(self).cols_done() as int) == readings[r],
            forall|r: int, c: int|
                0 <= r < 5 && 0 <= c < 15 && c != old(self).cols_done() ==> final(self).cell(
                    r,
                    c,
                ) == old(self).cell(r, c),
    {
        let col = self.cols_done;
        let mut r: usize = 0;
        while r < 5
            invariant
                r <= 5,
                col < 15,
                self.cols_done == col,
                forall|ri: int| 0 <= ri < r ==> self.keys[ri][col as int] == readings[ri],
                forall|ri: int, c: int|
                    0 <= ri < 5 && 0 <= c < 15 && !(ri < r && c == col) ==> self.keys[ri][c]
                        == old(self).keys[ri][c],
            decreases 5 - r,
        {
            let mut row_cells = self.keys[r];
            row_cells[col] = readings[r];
            self.keys[r] = row_cells;
            r += 1;
        }
        self.cols_done = col + 1;
    }

    /// The completed bitmap. A bitmap exists only for a scan in which
    /// every column was recorded: a scan aborted by an I/O fault yields
    /// none, so stale and fresh columns can never mix.
    pub fn finish(self) -> (bitmap: [[bool; 15]; 5])
        requires
            self.complete(),
        ensures
            forall|r: int, c: int|
                0 <= r < 5 && 0 <= c < 15 ==> bitmap[r][c] == self.cell(r, c),
    {
        self.keys
    }
}

} // verus!
