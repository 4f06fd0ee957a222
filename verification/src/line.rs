//! Straight lines on the pixel surface, drawn with integer error
//! accumulation.

use vstd::prelude::*;
use crate::fixed::{clamp_spec, MAX_DIMENSION, ONE};
use crate::framebuffer::Framebuffer;
use crate::vector::Vector2;

verus! {

/// The pixel coordinate of the fixed-point coordinate `v`: its whole part,
/// rounded toward zero and limited to the range of `i32`.
pub open spec fn to_pixel_spec(v: int) -> int {
    clamp_spec(
        if v >= 0 {
            v / (ONE as int)
        } else {
            -((-v) / (ONE as int))
        },
        i32::MIN as int,
        i32::MAX as int,
    )
}

/// The horizontal distance from `x0` to `x1`.
pub open spec fn span_spec(x0: int, x1: int) -> int {
    if x1 >= x0 {
        x1 - x0
    } else {
        x0 - x1
    }
}

/// The direction from `x0` toward `x1`: one, or minus one where `x1` is not
/// greater.
pub open spec fn toward_spec(x0: int, x1: int) -> int {
    if x0 < x1 {
        1
    } else {
        -1
    }
}

/// Whether the line that has reached `(x, y)` with the error `err`, on its
/// way to `(x1, y1)`, covers the pixel `(px, py)` within `fuel` more steps.
///
/// `dx` is the horizontal and `dy` the negated vertical extent of the whole
/// line, `sx` and `sy` its directions. A step moves along x where twice the
/// error is at least `dy`, and along y where twice the error is at most
/// `dx`.
pub open spec fn trace_covers(
    x: int,
    y: int,
    err: int,
    x1: int,
    y1: int,
    dx: int,
    dy: int,
    sx: int,
    sy: int,
    fuel: nat,
    px: int,
    py: int,
) -> bool
    decreases fuel,
{
    (x == px && y == py) || (fuel > 0 && (x != x1 || y != y1) && trace_covers(
        if 2 * err >= dy {
            x + sx
        } else {
            x
        },
        if 2 * err <= dx {
            y + sy
        } else {
            y
        },
        err + (if 2 * err >= dy {
            dy
        } else {
            0
        }) + (if 2 * err <= dx {
            dx
        } else {
            0
        }),
        x1,
        y1,
        dx,
        dy,
        sx,
        sy,
        (fuel - 1) as nat,
        px,
        py,
    ))
}

/// Whether the line from `(x0, y0)` to `(x1, y1)` covers the pixel
/// `(px, py)`.
pub open spec fn line_covers(x0: int, y0: int, x1: int, y1: int, px: int, py: int) -> bool {
    trace_covers(
        x0,
        y0,
        span_spec(x0, x1) - span_spec(y0, y1),
        x1,
        y1,
        span_spec(x0, x1),
        -span_spec(y0, y1),
        toward_spec(x0, x1),
        toward_spec(y0, y1),
        (span_spec(x0, x1) + span_spec(y0, y1)) as nat,
        px,
        py,
    )
}

/// The pixel coordinate of the fixed-point coordinate `v`.
pub fn to_pixel(v: i64) -> (p: i64)
    ensures
        p == to_pixel_spec(v as int),
        i32::MIN <= p <= i32::MAX,
{
    let whole: i64 = if v >= 0 {
        v / ONE
    } else if v == i64::MIN {
        -(i64::MAX / ONE)
    } else {
        -((-v) / ONE)
    };
    if whole < i32::MIN as i64 {
        i32::MIN as i64
    } else if whole > i32::MAX as i64 {
        i32::MAX as i64
    } else {
        whole
    }
}

/// The products of the steps that remain along each axis with the extent of
/// the other axis, on which the error of a line rests: a product with no
/// step left is zero, one with a step left is at least the extent, and
/// taking a step lowers it by the extent.
proof fn lemma_steps_left(rx: int, ry: int, dx: int, ady: int)
    by (nonlinear_arith)
    requires
        0 <= rx,
        0 <= ry,
        0 <= dx,
        0 <= ady,
    ensures
        rx == 0 ==> rx * ady == 0,
        ry == 0 ==> ry * dx == 0,
        rx >= 1 ==> (rx - 1) * ady == rx * ady - ady && rx * ady >= ady,
        ry >= 1 ==> (ry - 1) * dx == ry * dx - dx && ry * dx >= dx,
{
}

/// The number of steps that remain along one axis from `at` to `end`, in
/// the direction `step`.
pub open spec fn remaining_spec(at: int, end: int, step: int) -> int {
    if step == 1 {
        end - at
    } else {
        at - end
    }
}

/// A line that is on its way, with the error that belongs to the steps that
/// remain and with fuel for each of them, covers its end.
proof fn lemma_trace_reaches_end(
    x: int,
    y: int,
    err: int,
    x1: int,
    y1: int,
    dx: int,
    dy: int,
    sx: int,
    sy: int,
    fuel: nat,
)
    requires
        sx == 1 || sx == -1,
        sy == 1 || sy == -1,
        0 <= remaining_spec(x, x1, sx) <= dx,
        0 <= remaining_spec(y, y1, sy) <= -dy,
        err == dx + dy + remaining_spec(x, x1, sx) * (-dy) - remaining_spec(y, y1, sy) * dx,
        fuel >= remaining_spec(x, x1, sx) + remaining_spec(y, y1, sy),
    ensures
        trace_covers(x, y, err, x1, y1, dx, dy, sx, sy, fuel, x1, y1),
    decreases fuel,
{
    let rx = remaining_spec(x, x1, sx);
    let ry = remaining_spec(y, y1, sy);
    if x != x1 || y != y1 {
        lemma_steps_left(rx, ry, dx, -dy);
        let next_x = if 2 * err >= dy {
            x + sx
        } else {
            x
        };
        let next_y = if 2 * err <= dx {
            y + sy
        } else {
            y
        };
        let next_err = err + (if 2 * err >= dy {
            dy
        } else {
            0
        }) + (if 2 * err <= dx {
            dx
        } else {
            0
        });
        lemma_trace_reaches_end(next_x, next_y, next_err, x1, y1, dx, dy, sx, sy, (fuel - 1) as nat);
    }
}

/// A line that is on its way covers only pixels between where it stands and
/// its end.
proof fn lemma_trace_stays_inside(
    x: int,
    y: int,
    err: int,
    x1: int,
    y1: int,
    dx: int,
    dy: int,
    sx: int,
    sy: int,
    fuel: nat,
    px: int,
    py: int,
)
    requires
        sx == 1 || sx == -1,
        sy == 1 || sy == -1,
        0 <= remaining_spec(x, x1, sx) <= dx,
        0 <= remaining_spec(y, y1, sy) <= -dy,
        err == dx + dy + remaining_spec(x, x1, sx) * (-dy) - remaining_spec(y, y1, sy) * dx,
        trace_covers(x, y, err, x1, y1, dx, dy, sx, sy, fuel, px, py),
    ensures
        0 <= remaining_spec(px, x1, sx) <= remaining_spec(x, x1, sx),
        0 <= remaining_spec(py, y1, sy) <= remaining_spec(y, y1, sy),
    decreases fuel,
{
    let rx = remaining_spec(x, x1, sx);
    let ry = remaining_spec(y, y1, sy);
    if x != px || y != py {
        lemma_steps_left(rx, ry, dx, -dy);
        let next_x = if 2 * err >= dy {
            x + sx
        } else {
            x
        };
        let next_y = if 2 * err <= dx {
            y + sy
        } else {
            y
        };
        let next_err = err + (if 2 * err >= dy {
            dy
        } else {
            0
        }) + (if 2 * err <= dx {
            dx
        } else {
            0
        });
        lemma_trace_stays_inside(
            next_x,
            next_y,
            next_err,
            x1,
            y1,
            dx,
            dy,
            sx,
            sy,
            (fuel - 1) as nat,
            px,
            py,
        );
    }
}

/// A line covers only pixels of the rectangle that its ends span.
pub proof fn lemma_line_stays_between_ends(x0: int, y0: int, x1: int, y1: int, px: int, py: int)
    requires
        line_covers(x0, y0, x1, y1, px, py),
    ensures
        x0 <= px <= x1 || x1 <= px <= x0,
        y0 <= py <= y1 || y1 <= py <= y0,
{
    let dx = span_spec(x0, x1);
    let dy = -span_spec(y0, y1);
    assert(dx * (-dy) - (-dy) * dx == 0) by (nonlinear_arith);
    lemma_trace_stays_inside(
        x0,
        y0,
        dx + dy,
        x1,
        y1,
        dx,
        dy,
        toward_spec(x0, x1),
        toward_spec(y0, y1),
        (dx - dy) as nat,
        px,
        py,
    );
}

/// A line covers both of its ends.
pub proof fn lemma_line_covers_ends(x0: int, y0: int, x1: int, y1: int)
    ensures
        line_covers(x0, y0, x1, y1, x0, y0),
        line_covers(x0, y0, x1, y1, x1, y1),
{
    let dx = span_spec(x0, x1);
    let dy = -span_spec(y0, y1);
    assert(dx * (-dy) - (-dy) * dx == 0) by (nonlinear_arith);
    lemma_trace_reaches_end(
        x0,
        y0,
        dx + dy,
        x1,
        y1,
        dx,
        dy,
        toward_spec(x0, x1),
        toward_spec(y0, y1),
        (dx - dy) as nat,
    );
}

/// Draws the line from `start` to `end` in the current color of the
/// surface. Each end is taken at its whole pixel; pixels that the surface
/// does not have are left out.
pub fn line(framebuffer: &mut Framebuffer, start: Vector2, end: Vector2)
    ensures
        final(framebuffer).same_frame(old(framebuffer)),
        forall|px: int, py: int|
            old(framebuffer).contains(px, py) ==> final(framebuffer).pixel(px, py)
                == if line_covers(
                to_pixel_spec(start.x as int),
                to_pixel_spec(start.y as int),
                to_pixel_spec(end.x as int),
                to_pixel_spec(end.y as int),
                px,
                py,
            ) {
                old(framebuffer).spec_current()
            } else {
                old(framebuffer).pixel(px, py)
            },
{
    let x0: i64 = to_pixel(start.x);
    let y0: i64 = to_pixel(start.y);
    let x1: i64 = to_pixel(end.x);
    let y1: i64 = to_pixel(end.y);
    let dx: i64 = if x1 >= x0 {
        x1 - x0
    } else {
        x0 - x1
    };
    let dy: i64 = if y1 >= y0 {
        y0 - y1
    } else {
        y1 - y0
    };
    let sx: i64 = if x0 < x1 {
        1
    } else {
        -1
    };
    let sy: i64 = if y0 < y1 {
        1
    } else {
        -1
    };
    let width: usize = framebuffer.width();
    let height: usize = framebuffer.height();
    let color = framebuffer.current_color();
    let mut x: i64 = x0;
    let mut y: i64 = y0;
    let mut err: i128 = (dx + dy) as i128;
    let ghost mut rx: int = dx as int;
    let ghost mut ry: int = -dy as int;
    let ghost mut fuel: nat = (dx - dy) as nat;
    let ghost mut painted: Set<(int, int)> = Set::empty();
    proof {
        assert(rx * (-dy) - ry * dx == 0) by (nonlinear_arith)
            requires
                rx == dx,
                ry == -dy,
        ;
    }
    while x != x1 || y != y1
        invariant
            dx == span_spec(x0 as int, x1 as int),
            dy == -span_spec(y0 as int, y1 as int),
            sx == toward_spec(x0 as int, x1 as int),
            sy == toward_spec(y0 as int, y1 as int),
            i32::MIN <= x0 <= i32::MAX,
            i32::MIN <= x1 <= i32::MAX,
            i32::MIN <= y0 <= i32::MAX,
            i32::MIN <= y1 <= i32::MAX,
            0 <= rx <= dx,
            0 <= ry <= -dy,
            rx == if sx == 1 {
                x1 - x
            } else {
                x - x1
            },
            ry == if sy == 1 {
                y1 - y
            } else {
                y - y1
            },
            width <= MAX_DIMENSION,
            height <= MAX_DIMENSION,
            err == dx + dy + rx * (-dy) - ry * dx,
            fuel >= rx + ry,
            width == old(framebuffer).spec_width(),
            height == old(framebuffer).spec_height(),
            color == old(framebuffer).spec_current(),
            framebuffer.same_frame(old(framebuffer)),
            forall|px: int, py: int|
                line_covers(x0 as int, y0 as int, x1 as int, y1 as int, px, py) <==> (
                painted.contains((px, py)) || trace_covers(
                    x as int,
                    y as int,
                    err as int,
                    x1 as int,
                    y1 as int,
                    dx as int,
                    dy as int,
                    sx as int,
                    sy as int,
                    fuel,
                    px,
                    py,
                )),
            forall|px: int, py: int|
                old(framebuffer).contains(px, py) ==> framebuffer.pixel(px, py) == if painted.contains(
                    (px, py),
                ) {
                    color
                } else {
                    old(framebuffer).pixel(px, py)
                },
        decreases rx + ry,
    {
        if 0 <= x && x < width as i64 && 0 <= y && y < height as i64 {
            framebuffer.put_pixel(x as usize, y as usize, color);
        }
        proof {
            lemma_steps_left(rx, ry, dx as int, -dy as int);
            assert(rx * (-dy) <= dx * (-dy) && ry * dx <= (-dy) * dx && dx * (-dy) == (-dy) * dx
                && dx * (-dy) <= 0x1_0000_0000 * 0x1_0000_0000) by (nonlinear_arith)
                requires
                    0 <= rx <= dx,
                    0 <= ry <= -dy,
                    dx <= 0x1_0000_0000,
                    -dy <= 0x1_0000_0000,
            ;
            painted = painted.insert((x as int, y as int));
        }
        let e2: i128 = 2 * err;
        if e2 >= dy as i128 {
            err = err + dy as i128;
            x = x + sx;
            proof {
                rx = rx - 1;
            }
        }
        if e2 <= dx as i128 {
            err = err + dx as i128;
            y = y + sy;
            proof {
                ry = ry - 1;
            }
        }
        proof {
            fuel = (fuel - 1) as nat;
        }
    }
    if 0 <= x && x < width as i64 && 0 <= y && y < height as i64 {
        framebuffer.put_pixel(x as usize, y as usize, color);
    }
    proof {
        painted = painted.insert((x as int, y as int));
    }
}

} // verus!
