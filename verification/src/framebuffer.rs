//! The pixel surface: a rectangle of colors that every drawing operation
//! writes into.

use vstd::prelude::*;
use crate::color::{rgba, Color};
use crate::fixed::MAX_DIMENSION;

verus! {

/// A rectangle of `width` by `height` colors, with a background color used by
/// [`Framebuffer::clear`] and a current color used by
/// [`Framebuffer::set_pixel`].
///
/// The pixel at column `x` and row `y` exists for `0 <= x < width` and
/// `0 <= y < height`; row zero is the top row.
#[derive(Debug)]
pub struct Framebuffer {
    width: usize,
    height: usize,
    pixels: Vec<Color>,
    background_color: Color,
    current_color: Color,
}

/// In a rectangle of `w` columns, the position of `(x, y)` in row-major order
/// stays below `w * h` and differs from the position of any other pixel.
proof fn lemma_index(w: int, h: int, x: int, y: int, x2: int, y2: int)
    by (nonlinear_arith)
    requires
        0 <= x < w,
        0 <= y < h,
        0 <= x2 < w,
        0 <= y2 < h,
        w <= MAX_DIMENSION,
        h <= MAX_DIMENSION,
    ensures
        w * h <= MAX_DIMENSION * MAX_DIMENSION,
        0 <= y * w,
        0 <= y * w + x < w * h,
        (y * w + x == y2 * w + x2) ==> (x == x2 && y == y2),
{
}

impl Framebuffer {
    #[verifier::type_invariant]
    spec fn inv(&self) -> bool {
        &&& self.width <= MAX_DIMENSION
        &&& self.height <= MAX_DIMENSION
        &&& self.pixels@.len() == self.width * self.height
    }

    /// The number of columns.
    pub closed spec fn spec_width(&self) -> usize {
        self.width
    }

    /// The number of rows.
    pub closed spec fn spec_height(&self) -> usize {
        self.height
    }

    /// The color that [`Framebuffer::clear`] fills with.
    pub closed spec fn spec_background(&self) -> Color {
        self.background_color
    }

    /// The color that [`Framebuffer::set_pixel`] paints with.
    pub closed spec fn spec_current(&self) -> Color {
        self.current_color
    }

    /// The color of the pixel at column `x`, row `y`.
    pub closed spec fn pixel(&self, x: int, y: int) -> Color {
        self.pixels@[y * self.width + x]
    }

    /// Whether `(x, y)` is a pixel of this surface.
    pub open spec fn contains(&self, x: int, y: int) -> bool {
        0 <= x < self.spec_width() && 0 <= y < self.spec_height()
    }

    /// Whether `other` has the size, the background color and the current
    /// color of this surface.
    pub open spec fn same_frame(&self, other: &Framebuffer) -> bool {
        &&& self.spec_width() == other.spec_width()
        &&& self.spec_height() == other.spec_height()
        &&& self.spec_background() == other.spec_background()
        &&& self.spec_current() == other.spec_current()
    }

    /// Whether `other` has the size and the background color of this
    /// surface.
    pub open spec fn same_surface(&self, other: &Framebuffer) -> bool {
        &&& self.spec_width() == other.spec_width()
        &&& self.spec_height() == other.spec_height()
        &&& self.spec_background() == other.spec_background()
    }

    /// Whether `other` has the size and the background color of this
    /// surface, and in every pixel its color.
    pub open spec fn same_picture(&self, other: &Framebuffer) -> bool {
        &&& self.same_surface(other)
        &&& forall|x: int, y: int| self.contains(x, y) ==> self.pixel(x, y) == other.pixel(x, y)
    }

    /// A surface of the given size, every pixel black; the background color
    /// is black and the current color white.
    pub fn new(width: usize, height: usize) -> (fb: Framebuffer)
        requires
            width <= MAX_DIMENSION,
            height <= MAX_DIMENSION,
        ensures
            fb.spec_width() == width,
            fb.spec_height() == height,
            fb.spec_background() == rgba(0, 0, 0, 255),
            fb.spec_current() == rgba(255, 255, 255, 255),
            forall|x: int, y: int| fb.contains(x, y) ==> fb.pixel(x, y) == rgba(0, 0, 0, 255),
    {
        let black = Color::new(0, 0, 0, 255);
        assert(width * height <= MAX_DIMENSION * MAX_DIMENSION) by (nonlinear_arith)
            requires
                width <= MAX_DIMENSION,
                height <= MAX_DIMENSION,
        ;
        let n: usize = width * height;
        let mut pixels: Vec<Color> = Vec::new();
        let mut k: usize = 0;
        while k < n
            invariant
                k <= n,
                pixels@.len() == k,
                forall|i: int| 0 <= i < k ==> pixels@[i] == black,
            decreases n - k,
        {
            pixels.push(black);
            k += 1;
        }
        let fb = Framebuffer {
            width,
            height,
            pixels,
            background_color: black,
            current_color: Color::new(255, 255, 255, 255),
        };
        assert forall|x: int, y: int| fb.contains(x, y) implies fb.pixel(x, y) == black by {
            lemma_index(width as int, height as int, x, y, x, y);
        }
        fb
    }

    /// The number of columns.
    #[verifier::when_used_as_spec(spec_width)]
    pub fn width(&self) -> (w: usize)
        ensures
            w == self.spec_width(),
            w <= MAX_DIMENSION,
    {
        proof {
            use_type_invariant(self);
        }
        self.width
    }

    /// The number of rows.
    #[verifier::when_used_as_spec(spec_height)]
    pub fn height(&self) -> (h: usize)
        ensures
            h == self.spec_height(),
            h <= MAX_DIMENSION,
    {
        proof {
            use_type_invariant(self);
        }
        self.height
    }

    /// The background color.
    pub fn background_color(&self) -> (c: Color)
        ensures
            c == self.spec_background(),
    {
        self.background_color
    }

    /// The current color.
    pub fn current_color(&self) -> (c: Color)
        ensures
            c == self.spec_current(),
    {
        self.current_color
    }

    /// The color of the pixel at `(x, y)`, or `None` where the surface has no
    /// such pixel.
    pub fn get_pixel(&self, x: usize, y: usize) -> (c: Option<Color>)
        ensures
            c == if self.contains(x as int, y as int) {
                Some(self.pixel(x as int, y as int))
            } else {
                None
            },
    {
        proof {
            use_type_invariant(self);
        }
        if x < self.width && y < self.height {
            proof {
                lemma_index(self.width as int, self.height as int, x as int, y as int, 0, 0);
            }
            Some(self.pixels[y * self.width + x])
        } else {
            None
        }
    }

    /// Sets the color that [`Framebuffer::clear`] fills with.
    pub fn set_background_color(&mut self, color: Color)
        ensures
            final(self).spec_background() == color,
            final(self).spec_width() == old(self).spec_width(),
            final(self).spec_height() == old(self).spec_height(),
            final(self).spec_current() == old(self).spec_current(),
            forall|x: int, y: int|
                old(self).contains(x, y) ==> final(self).pixel(x, y) == old(self).pixel(x, y),
    {
        proof {
            use_type_invariant(&*self);
        }
        self.background_color = color;
    }

    /// Sets the color that [`Framebuffer::set_pixel`] paints with.
    pub fn set_current_color(&mut self, color: Color)
        ensures
            final(self).spec_current() == color,
            final(self).same_picture(old(self)),
    {
        proof {
            use_type_invariant(&*self);
        }
        self.current_color = color;
    }

    /// Gives the pixel at `(x, y)` the color `color`. Where the surface has
    /// no such pixel, nothing changes.
    pub fn put_pixel(&mut self, x: usize, y: usize, color: Color)
        ensures
            final(self).same_frame(old(self)),
            forall|px: int, py: int|
                old(self).contains(px, py) ==> final(self).pixel(px, py) == if px == x && py == y {
                    color
                } else {
                    old(self).pixel(px, py)
                },
    {
        proof {
            use_type_invariant(&*self);
        }
        if x < self.width && y < self.height {
            proof {
                lemma_index(self.width as int, self.height as int, x as int, y as int, 0, 0);
            }
            let k: usize = y * self.width + x;
            self.pixels[k] = color;
            proof {
                assert forall|px: int, py: int| old(self).contains(px, py) implies self.pixel(
                    px,
                    py,
                ) == if px == x && py == y {
                    color
                } else {
                    old(self).pixel(px, py)
                } by {
                    lemma_index(self.width as int, self.height as int, x as int, y as int, px, py);
                    lemma_index(self.width as int, self.height as int, px, py, x as int, y as int);
                }
            }
        }
    }

    /// Paints the pixel at `(x, y)` with the current color. Where the surface
    /// has no such pixel, nothing changes.
    pub fn set_pixel(&mut self, x: usize, y: usize)
        ensures
            final(self).same_frame(old(self)),
            forall|px: int, py: int|
                old(self).contains(px, py) ==> final(self).pixel(px, py) == if px == x && py == y {
                    old(self).spec_current()
                } else {
                    old(self).pixel(px, py)
                },
    {
        let color = self.current_color;
        self.put_pixel(x, y, color);
    }

    /// Gives every pixel the background color.
    pub fn clear(&mut self)
        ensures
            final(self).same_frame(old(self)),
            forall|x: int, y: int|
                old(self).contains(x, y) ==> final(self).pixel(x, y) == old(self).spec_background(),
    {
        proof {
            use_type_invariant(&*self);
        }
        let n: usize = self.pixels.len();
        let background = self.background_color;
        let mut k: usize = 0;
        while k < n
            invariant
                k <= n,
                n == self.pixels@.len(),
                self.width == old(self).width,
                self.height == old(self).height,
                self.background_color == old(self).background_color,
                self.current_color == old(self).current_color,
                background == self.background_color,
                n == self.width * self.height,
                self.width <= MAX_DIMENSION,
                self.height <= MAX_DIMENSION,
                forall|i: int| 0 <= i < k ==> self.pixels@[i] == background,
            decreases n - k,
        {
            self.pixels[k] = background;
            k += 1;
        }
        proof {
            assert forall|x: int, y: int| old(self).contains(x, y) implies self.pixel(x, y)
                == background by {
                lemma_index(self.width as int, self.height as int, x, y, x, y);
            }
        }
    }
}

/// The color that a drawing pass leaves as the current color after the
/// first `rows` rows of column `x`, where `before` was the current color:
/// the color of the last pixel that the pass painted there, or `before`
/// where it painted none. `paints` gives the color that the pass paints a
/// pixel with, or `None` for a pixel that it leaves.
pub open spec fn last_in_column(
    before: Color,
    paints: spec_fn(int, int) -> Option<Color>,
    x: int,
    rows: int,
) -> Color
    decreases rows,
{
    if rows <= 0 {
        before
    } else {
        match paints(x, rows - 1) {
            Some(color) => color,
            None => last_in_column(before, paints, x, rows - 1),
        }
    }
}

/// The color that a drawing pass leaves as the current color after the
/// first `columns` columns of a surface of `rows` rows, where `before` was
/// the current color. The pass goes through the columns from the left, and
/// through each column from the top.
pub open spec fn last_painted(
    before: Color,
    paints: spec_fn(int, int) -> Option<Color>,
    columns: int,
    rows: int,
) -> Color
    decreases columns,
{
    if columns <= 0 {
        before
    } else {
        last_in_column(last_painted(before, paints, columns - 1, rows), paints, columns - 1, rows)
    }
}

/// Rows in which a pass paints nothing leave the current color as it is.
pub proof fn lemma_rows_skipped(
    before: Color,
    paints: spec_fn(int, int) -> Option<Color>,
    x: int,
    from: int,
    rows: int,
)
    requires
        0 <= from <= rows,
        forall|y: int| from <= y < rows ==> (#[trigger] paints(x, y)).is_none(),
    ensures
        last_in_column(before, paints, x, rows) == last_in_column(before, paints, x, from),
    decreases rows - from,
{
    if from < rows {
        lemma_rows_skipped(before, paints, x, from, rows - 1);
    }
}

/// Columns in which a pass paints nothing leave the current color as it is.
pub proof fn lemma_columns_skipped(
    before: Color,
    paints: spec_fn(int, int) -> Option<Color>,
    from: int,
    columns: int,
    rows: int,
)
    requires
        0 <= from <= columns,
        forall|x: int, y: int|
            from <= x < columns && 0 <= y < rows ==> (#[trigger] paints(x, y)).is_none(),
    ensures
        last_painted(before, paints, columns, rows) == last_painted(before, paints, from, rows),
    decreases columns - from,
{
    if from < columns {
        lemma_columns_skipped(before, paints, from, columns - 1, rows);
        if rows > 0 {
            lemma_rows_skipped(
                last_painted(before, paints, columns - 1, rows),
                paints,
                columns - 1,
                0,
                rows,
            );
        }
    }
}

} // verus!
