//! A decoded image as a grid of pixels, and the colour substitution pass.

use vstd::prelude::*;

use crate::color::{replace_pixel, substitute, Criterion, Pixel};

verus! {

/// Failures of image buffer operations.
#[derive(Clone, Copy, Debug, PartialEq, Eq, Structural)]
pub enum ImageError {
    /// Source and destination do not have the same numbers of rows and columns.
    InvalidDimensions,
    /// A coordinate lies outside the buffer.
    IndexOutOfBounds,
}

/// A `rows x cols` grid of pixels, held row by row.
pub struct ImageBuffer {
    cols: usize,
    data: Vec<Vec<Pixel>>,
}

/// Every row of `grid` holds `cols` pixels.
pub open spec fn rows_have_width(grid: Seq<Seq<Pixel>>, cols: nat) -> bool {
    forall|r: int| 0 <= r < grid.len() ==> #[trigger] grid[r].len() == cols
}

/// The grid that the substitution pass makes of `grid`.
pub open spec fn substituted(grid: Seq<Seq<Pixel>>, c: Criterion) -> Seq<Seq<Pixel>> {
    grid.map_values(|row: Seq<Pixel>| row.map_values(|p: Pixel| substitute(p, c)))
}

impl View for ImageBuffer {
    type V = Seq<Seq<Pixel>>;

    closed spec fn view(&self) -> Seq<Seq<Pixel>> {
        self.data@.map_values(|row: Vec<Pixel>| row@)
    }
}

impl ImageBuffer {
    /// Number of columns.
    pub closed spec fn width(&self) -> nat {
        self.cols as nat
    }

    /// Number of rows.
    pub open spec fn height(&self) -> nat {
        self@.len()
    }

    /// Every row has `width()` pixels.
    pub open spec fn wf(&self) -> bool {
        rows_have_width(self@, self.width())
    }

    /// Both buffers have the same numbers of rows and columns.
    pub open spec fn same_dimensions(&self, other: &ImageBuffer) -> bool {
        self.height() == other.height() && self.width() == other.width()
    }

    /// A `rows x cols` buffer with every pixel set to `fill`.
    pub fn new(rows: usize, cols: usize, fill: Pixel) -> (r: ImageBuffer)
        ensures
            r.wf(),
            r.height() == rows,
            r.width() == cols,
            forall|i: int, j: int| 0 <= i < rows && 0 <= j < cols ==> #[trigger] r@[i][j] == fill,
    {
        let mut data: Vec<Vec<Pixel>> = Vec::new();
        let mut i: usize = 0;
        while i < rows
            invariant
                i <= rows,
                data@.len() == i,
                forall|k: int| 0 <= k < i ==> #[trigger] data@[k]@ == Seq::new(cols as nat, |j: int| fill),
            decreases rows - i,
        {
            let mut row: Vec<Pixel> = Vec::new();
            let mut j: usize = 0;
            while j < cols
                invariant
                    j <= cols,
                    row@ == Seq::new(j as nat, |k: int| fill),
                decreases cols - j,
            {
                row.push(fill);
                j = j + 1;
                assert(row@ =~= Seq::new(j as nat, |k: int| fill));
            }
            data.push(row);
            i = i + 1;
        }
        let r = ImageBuffer { cols, data };
        assert(r.wf());
        r
    }

    /// A buffer with `cols` columns made of the given rows, or `None` when a
    /// row does not hold exactly `cols` pixels.
    pub fn from_rows(cols: usize, rows: Vec<Vec<Pixel>>) -> (r: Option<ImageBuffer>)
        ensures
            r is Some <==> rows_have_width(rows@.map_values(|row: Vec<Pixel>| row@), cols as nat),
            r matches Some(img) ==> img.wf() && img.width() == cols
                && img@ == rows@.map_values(|row: Vec<Pixel>| row@),
    {
        let ghost grid = rows@.map_values(|row: Vec<Pixel>| row@);
        let mut i: usize = 0;
        while i < rows.len()
            invariant
                i <= rows@.len(),
                grid == rows@.map_values(|row: Vec<Pixel>| row@),
                forall|k: int| 0 <= k < i ==> #[trigger] grid[k].len() == cols,
            decreases rows@.len() - i,
        {
            if rows[i].len() != cols {
                assert(grid[i as int].len() != cols);
                return None;
            }
            i = i + 1;
        }
        Some(ImageBuffer { cols, data: rows })
    }

    /// Number of rows.
    pub fn rows(&self) -> (r: usize)
        ensures
            r == self.height(),
    {
        self.data.len()
    }

    /// Number of columns.
    pub fn cols(&self) -> (r: usize)
        ensures
            r == self.width(),
    {
        self.cols
    }

    /// The pixel at `(row, col)`, or `IndexOutOfBounds` outside the buffer.
    pub fn get(&self, row: usize, col: usize) -> (r: Result<Pixel, ImageError>)
        requires
            self.wf(),
        ensures
            row < self.height() && col < self.width() ==> r == Ok::<Pixel, ImageError>(
                self@[row as int][col as int],
            ),
            !(row < self.height() && col < self.width()) ==> r == Err::<Pixel, ImageError>(
                ImageError::IndexOutOfBounds,
            ),
    {
        if row < self.data.len() && col < self.cols {
            assert(self@[row as int].len() == self.width());
            Ok(self.data[row][col])
        } else {
            Err(ImageError::IndexOutOfBounds)
        }
    }
}

/// Writes into `destination`, for every coordinate, the target colour where
/// the source pixel matches `criterion` and the source pixel itself where it
/// does not. Fails with `InvalidDimensions`, before any write, when the two
/// buffers differ in rows or columns.
pub fn apply(source: &ImageBuffer, destination: &mut ImageBuffer, criterion: &Criterion) -> (r:
    Result<(), ImageError>)
    requires
        source.wf(),
        old(destination).wf(),
    ensures
        final(destination).wf(),
        r is Ok <==> source.same_dimensions(old(destination)),
        r is Err ==> r == Err::<(), ImageError>(ImageError::InvalidDimensions),
        r is Err ==> *final(destination) == *old(destination),
        r is Ok ==> final(destination).same_dimensions(source),
        r is Ok ==> final(destination)@ == substituted(source@, *criterion),
{
    if source.data.len() != destination.data.len() || source.cols != destination.cols {
        return Err(ImageError::InvalidDimensions);
    }
    let ghost grid = substituted(source@, *criterion);
    let rows = source.data.len();
    let cols = source.cols;
    let mut out: Vec<Vec<Pixel>> = Vec::new();
    let mut i: usize = 0;
    while i < rows
        invariant
            rows == source@.len(),
            cols == source.width(),
            source.wf(),
            i <= rows,
            out@.len() == i,
            grid == substituted(source@, *criterion),
            forall|k: int| 0 <= k < i ==> #[trigger] out@[k]@ == grid[k],
        decreases rows - i,
    {
        let src_row = &source.data[i];
        assert(src_row@ == source@[i as int]);
        assert(src_row@.len() == cols);
        let mut row: Vec<Pixel> = Vec::new();
        let mut j: usize = 0;
        while j < cols
            invariant
                cols == src_row@.len(),
                j <= cols,
                row@ == src_row@.subrange(0, j as int).map_values(|p: Pixel| substitute(p, *criterion)),
            decreases cols - j,
        {
            row.push(replace_pixel(src_row[j], criterion));
            j = j + 1;
            assert(row@ =~= src_row@.subrange(0, j as int).map_values(
                |p: Pixel| substitute(p, *criterion),
            ));
        }
        assert(src_row@.subrange(0, cols as int) =~= src_row@);
        out.push(row);
        i = i + 1;
    }
    destination.data = out;
    assert(destination@ =~= grid);
    Ok(())
}

/// Two runs of the pass on the same source and criterion leave identical
/// destination buffers, whatever the destinations held before.
pub proof fn lemma_apply_deterministic(
    source: ImageBuffer,
    criterion: Criterion,
    first: ImageBuffer,
    second: ImageBuffer,
)
    requires
        source.wf(),
        first.same_dimensions(&source),
        second.same_dimensions(&source),
        first@ == substituted(source@, criterion),
        second@ == substituted(source@, criterion),
    ensures
        first@ == second@,
        first.width() == second.width(),
{
}

/// After a successful pass every coordinate of the destination holds the
/// value determined by the source pixel at that coordinate alone: the target
/// colour where it matches and the source pixel where it does not.
pub proof fn lemma_full_coverage(source: ImageBuffer, criterion: Criterion, out: ImageBuffer)
    requires
        source.wf(),
        out.same_dimensions(&source),
        out@ == substituted(source@, criterion),
    ensures
        forall|i: int, j: int|
            0 <= i < source.height() && 0 <= j < source.width() ==> #[trigger] out@[i][j]
                == substitute(source@[i][j], criterion),
{
    assert forall|i: int, j: int|
        0 <= i < source.height() && 0 <= j < source.width() implies #[trigger] out@[i][j]
        == substitute(source@[i][j], criterion) by {
        assert(source@[i].len() == source.width());
    }
}

} // verus!
