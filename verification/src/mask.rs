//! Binary masks and the frame that holds four of them.

use vstd::prelude::*;

verus! {

/// A grid of pixels stored row by row, top row first. A pixel is background
/// when it is zero and foreground otherwise.
pub struct Mask {
    cols: i32,
    rows: i32,
    pixels: Vec<u8>,
}

impl View for Mask {
    type V = Seq<u8>;

    /// The pixels, row by row.
    closed spec fn view(&self) -> Seq<u8> {
        self.pixels@
    }
}

/// What a lookup at `index` finds in `pixels`: the pixel there, or nothing
/// when the index lies outside the grid.
pub open spec fn pixel_at(pixels: Seq<u8>, index: int) -> Option<u8> {
    if 0 <= index < pixels.len() {
        Some(pixels[index])
    } else {
        None
    }
}

/// Whether a grid of the given size can be addressed by 32-bit indices.
pub open spec fn valid_size(cols: int, rows: int) -> bool {
    0 <= cols && 0 <= rows && cols * rows <= i32::MAX
}

impl Mask {
    /// Number of columns.
    pub closed spec fn spec_cols(&self) -> int {
        self.cols as int
    }

    /// Number of rows.
    pub closed spec fn spec_rows(&self) -> int {
        self.rows as int
    }

    /// The grid has as many pixels as its size says, and no more than a
    /// 32-bit index can reach.
    #[verifier::type_invariant]
    pub closed spec fn wf(&self) -> bool {
        &&& valid_size(self.cols as int, self.rows as int)
        &&& self.pixels@.len() == self.cols * self.rows
    }

    /// Makes a mask of `cols` by `rows` pixels, or nothing when the size is
    /// negative, too large, or not the number of pixels given.
    pub fn new(cols: i32, rows: i32, pixels: Vec<u8>) -> (mask: Option<Mask>)
        ensures
            mask.is_some() <==> valid_size(cols as int, rows as int) && pixels.len() == cols * rows,
            mask matches Some(m) ==> m.spec_cols() == cols && m.spec_rows() == rows && m@
                == pixels@,
    {
        if cols < 0 || rows < 0 {
            return None;
        }
        assert(0 <= cols * rows <= 0x8000_0000 * 0x8000_0000) by (nonlinear_arith)
            requires
                0 <= cols <= 0x8000_0000,
                0 <= rows <= 0x8000_0000,
        ;
        let total: i64 = cols as i64 * rows as i64;
        if total > i32::MAX as i64 || pixels.len() as u64 != total as u64 {
            return None;
        }
        Some(Mask { cols, rows, pixels })
    }

    /// Number of columns.
    pub fn cols(&self) -> (cols: i32)
        ensures
            cols == self.spec_cols(),
            valid_size(self.spec_cols(), self.spec_rows()),
            self@.len() == self.spec_cols() * self.spec_rows(),
    {
        proof {
            use_type_invariant(self);
        }
        self.cols
    }

    /// Number of rows.
    pub fn rows(&self) -> (rows: i32)
        ensures
            rows == self.spec_rows(),
            valid_size(self.spec_cols(), self.spec_rows()),
            self@.len() == self.spec_cols() * self.spec_rows(),
    {
        proof {
            use_type_invariant(self);
        }
        self.rows
    }

    /// Looks up the pixel at a linear index; nothing lies outside the grid.
    pub fn at(&self, index: i64) -> (pixel: Option<u8>)
        ensures
            pixel == pixel_at(self@, index as int),
    {
        if index < 0 || index as u64 >= self.pixels.len() as u64 {
            None
        } else {
            Some(self.pixels[index as usize])
        }
    }
}

/// The mathematical content of a [`Frame`].
pub struct FrameView {
    pub width: int,
    pub height: int,
    pub left: Seq<u8>,
    pub right: Seq<u8>,
    pub obstacles: Seq<u8>,
    pub finish: Seq<u8>,
}

impl FrameView {
    /// All four masks have the frame's size.
    pub open spec fn wf(self) -> bool {
        &&& valid_size(self.width, self.height)
        &&& self.left.len() == self.width * self.height
        &&& self.right.len() == self.width * self.height
        &&& self.obstacles.len() == self.width * self.height
        &&& self.finish.len() == self.width * self.height
    }

    /// The point rays start from: bottom centre, one row below the last.
    pub open spec fn reference_point(self) -> (int, int) {
        (self.width / 2, self.height)
    }

    /// No mask has a foreground pixel.
    pub open spec fn is_blank(self) -> bool {
        &&& forall|i: int| 0 <= i < self.left.len() ==> self.left[i] == 0
        &&& forall|i: int| 0 <= i < self.right.len() ==> self.right[i] == 0
        &&& forall|i: int| 0 <= i < self.obstacles.len() ==> self.obstacles[i] == 0
        &&& forall|i: int| 0 <= i < self.finish.len() ==> self.finish[i] == 0
    }
}

/// Models a frame of the track by its masks.
pub struct Frame<'a> {
    /// Mask of the left lines.
    left: &'a Mask,
    /// Mask of the right lines.
    right: &'a Mask,
    /// Mask of the obstacles.
    obstacles: &'a Mask,
    /// Mask of the finish line.
    finish: &'a Mask,
    /// Width and height of the frame.
    size: (i32, i32),
}

impl<'a> View for Frame<'a> {
    type V = FrameView;

    closed spec fn view(&self) -> FrameView {
        FrameView {
            width: self.size.0 as int,
            height: self.size.1 as int,
            left: self.left@,
            right: self.right@,
            obstacles: self.obstacles@,
            finish: self.finish@,
        }
    }
}

impl<'a> Frame<'a> {
    /// The four masks are well formed and have the frame's size.
    #[verifier::type_invariant]
    pub closed spec fn wf(&self) -> bool {
        &&& self.left.wf()
        &&& self.right.wf()
        &&& self.obstacles.wf()
        &&& self.finish.wf()
        &&& same_size(self.left, self.size)
        &&& same_size(self.right, self.size)
        &&& same_size(self.obstacles, self.size)
        &&& same_size(self.finish, self.size)
    }

    /// The masks of a well-formed frame all have the frame's size.
    pub proof fn lemma_view_wf(&self)
        requires
            self.wf(),
        ensures
            self@.wf(),
    {
    }

    /// Puts four masks together, or nothing when they differ in size.
    pub fn new(left: &'a Mask, right: &'a Mask, obstacles: &'a Mask, finish: &'a Mask) -> (frame:
        Option<Frame<'a>>)
        ensures
            frame.is_some() <==> {
                &&& right.spec_cols() == left.spec_cols()
                &&& right.spec_rows() == left.spec_rows()
                &&& obstacles.spec_cols() == left.spec_cols()
                &&& obstacles.spec_rows() == left.spec_rows()
                &&& finish.spec_cols() == left.spec_cols()
                &&& finish.spec_rows() == left.spec_rows()
            },
            frame matches Some(f) ==> f@ == (FrameView {
                width: left.spec_cols(),
                height: left.spec_rows(),
                left: left@,
                right: right@,
                obstacles: obstacles@,
                finish: finish@,
            }),
    {
        proof {
            use_type_invariant(left);
            use_type_invariant(right);
            use_type_invariant(obstacles);
            use_type_invariant(finish);
        }
        let size: (i32, i32) = (left.cols(), left.rows());
        if right.cols() != size.0 || right.rows() != size.1 {
            return None;
        }
        if obstacles.cols() != size.0 || obstacles.rows() != size.1 {
            return None;
        }
        if finish.cols() != size.0 || finish.rows() != size.1 {
            return None;
        }
        Some(Frame { left, right, obstacles, finish, size })
    }

    /// Width of the frame in pixels.
    pub fn width(&self) -> (width: i32)
        ensures
            width == self@.width,
            self@.wf(),
    {
        proof {
            use_type_invariant(self);
        }
        self.size.0
    }

    /// Height of the frame in pixels.
    pub fn height(&self) -> (height: i32)
        ensures
            height == self@.height,
            self@.wf(),
    {
        proof {
            use_type_invariant(self);
        }
        self.size.1
    }

    /// Mask of the left lines.
    pub fn left(&self) -> (mask: &'a Mask)
        ensures
            mask@ == self@.left,
            mask.spec_cols() == self@.width,
            mask.spec_rows() == self@.height,
    {
        proof {
            use_type_invariant(self);
        }
        self.left
    }

    /// Mask of the right lines.
    pub fn right(&self) -> (mask: &'a Mask)
        ensures
            mask@ == self@.right,
            mask.spec_cols() == self@.width,
            mask.spec_rows() == self@.height,
    {
        proof {
            use_type_invariant(self);
        }
        self.right
    }

    /// Mask of the obstacles.
    pub fn obstacles(&self) -> (mask: &'a Mask)
        ensures
            mask@ == self@.obstacles,
            mask.spec_cols() == self@.width,
            mask.spec_rows() == self@.height,
    {
        proof {
            use_type_invariant(self);
        }
        self.obstacles
    }

    /// Mask of the finish line.
    pub fn finish(&self) -> (mask: &'a Mask)
        ensures
            mask@ == self@.finish,
            mask.spec_cols() == self@.width,
            mask.spec_rows() == self@.height,
    {
        proof {
            use_type_invariant(self);
        }
        self.finish
    }

    /// The point rays start from: bottom centre, one row below the last.
    pub fn reference_point(&self) -> (point: (i32, i32))
        ensures
            (point.0 as int, point.1 as int) == self@.reference_point(),
    {
        proof {
            use_type_invariant(self);
        }
        (self.size.0 / 2, self.size.1)
    }
}

/// Whether `mask` has the given width and height.
pub closed spec fn same_size(mask: &Mask, size: (i32, i32)) -> bool {
    mask.spec_cols() == size.0 && mask.spec_rows() == size.1
}

} // verus!
