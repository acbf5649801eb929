//! Rectangles in the logical coordinate space of the outputs, and regions
//! embedded inside another region.

use vstd::prelude::*;

use crate::text::{dec_int, dec_nat, push_i64, push_u64};

verus! {

/// Position of a rectangle: its top left corner.
#[derive(Debug, Copy, Clone, PartialEq, Eq, Hash, Structural)]
pub struct Position {
    /// X coordinate.
    pub x: i32,
    /// Y coordinate.
    pub y: i32,
}

/// Size of a rectangle.
#[derive(Debug, Copy, Clone, PartialEq, Eq, Hash, Structural)]
pub struct Size {
    /// Width.
    pub width: u32,
    /// Height.
    pub height: u32,
}

/// Rectangle area in an unspecified coordinate system.
///
/// Use `LogicalRegion` or `EmbeddedRegion` instead as they convey the
/// coordinate system used.
#[derive(Debug, Copy, Clone, PartialEq, Eq, Hash, Structural)]
pub struct Region {
    /// Position of the region.
    pub position: Position,
    /// Size of the region.
    pub size: Size,
}

/// `Region` where the coordinate system is the logical coordinate system used
/// in Wayland to position outputs. Top left is (0, 0) and any transforms and
/// scaling have been applied. A unit is a logical pixel.
#[derive(Debug, Copy, Clone, PartialEq, Eq, Hash, Structural)]
pub struct LogicalRegion {
    pub inner: Region,
}

/// An embedded region is a region entirely inside of another (often an output).
///
/// `inner` is expressed relative to the top left corner of `relative_to`, and
/// lies within the bounds of `relative_to`.
#[derive(Debug, Copy, Clone)]
pub struct EmbeddedRegion {
    /// The region that gives the coordinate system of `inner`.
    pub relative_to: LogicalRegion,
    pub inner: Region,
}

impl Default for Position {
    fn default() -> (r: Self)
        ensures
            r == (Position { x: 0, y: 0 }),
    {
        Position { x: 0, y: 0 }
    }
}

impl Default for Size {
    fn default() -> (r: Self)
        ensures
            r == (Size { width: 0, height: 0 }),
    {
        Size { width: 0, height: 0 }
    }
}

impl Default for Region {
    fn default() -> (r: Self)
        ensures
            r == (Region { position: Position { x: 0, y: 0 }, size: Size { width: 0, height: 0 } }),
    {
        Region { position: Position::default(), size: Size::default() }
    }
}

impl Default for LogicalRegion {
    fn default() -> (r: Self)
        ensures
            r == (LogicalRegion {
                inner: Region { position: Position { x: 0, y: 0 }, size: Size { width: 0, height: 0 } },
            }),
    {
        LogicalRegion { inner: Region::default() }
    }
}

/// Whether an integer fits in an `i32`.
pub open spec fn in_i32(v: int) -> bool {
    i32::MIN <= v <= i32::MAX
}

/// The value of `w as i32` for a `u32`: the same bits read as two's complement.
pub open spec fn as_i32(w: u32) -> int {
    if w <= i32::MAX {
        w as int
    } else {
        w as int - 0x1_0000_0000
    }
}

pub open spec fn max_int(a: int, b: int) -> int {
    if a >= b { a } else { b }
}

pub open spec fn min_int(a: int, b: int) -> int {
    if a <= b { a } else { b }
}

/// Start of the clipped span on one axis, relative to the embedding region.
pub open spec fn clip_start(rel: int) -> int {
    max_int(rel, 0)
}

/// End (exclusive) of the clipped span on one axis, relative to the embedding region.
pub open spec fn clip_end(rel: int, len: u32, bound: u32) -> int {
    min_int(rel + as_i32(len), as_i32(bound))
}

pub open spec fn rel_x(viewport: LogicalRegion, relative_to: LogicalRegion) -> int {
    viewport.inner.position.x - relative_to.inner.position.x
}

pub open spec fn rel_y(viewport: LogicalRegion, relative_to: LogicalRegion) -> int {
    viewport.inner.position.y - relative_to.inner.position.y
}

pub open spec fn embed_x_start(viewport: LogicalRegion, relative_to: LogicalRegion) -> int {
    clip_start(rel_x(viewport, relative_to))
}

pub open spec fn embed_x_end(viewport: LogicalRegion, relative_to: LogicalRegion) -> int {
    clip_end(rel_x(viewport, relative_to), viewport.inner.size.width, relative_to.inner.size.width)
}

pub open spec fn embed_y_start(viewport: LogicalRegion, relative_to: LogicalRegion) -> int {
    clip_start(rel_y(viewport, relative_to))
}

pub open spec fn embed_y_end(viewport: LogicalRegion, relative_to: LogicalRegion) -> int {
    clip_end(rel_y(viewport, relative_to), viewport.inner.size.height, relative_to.inner.size.height)
}

/// The inputs on which `EmbeddedRegion::new` computes without an arithmetic overflow.
pub open spec fn embed_in_range(viewport: LogicalRegion, relative_to: LogicalRegion) -> bool {
    &&& in_i32(rel_x(viewport, relative_to))
    &&& in_i32(rel_y(viewport, relative_to))
    &&& in_i32(rel_x(viewport, relative_to) + as_i32(viewport.inner.size.width))
    &&& in_i32(embed_x_end(viewport, relative_to) - embed_x_start(viewport, relative_to))
    &&& embed_x_end(viewport, relative_to) - embed_x_start(viewport, relative_to) >= 1 ==> {
        &&& in_i32(rel_y(viewport, relative_to) + as_i32(viewport.inner.size.height))
        &&& in_i32(embed_y_end(viewport, relative_to) - embed_y_start(viewport, relative_to))
    }
}

/// What `EmbeddedRegion::new` returns: the part of `viewport` inside
/// `relative_to`, relative to `relative_to`, or nothing when that part is empty.
pub open spec fn embed_spec(viewport: LogicalRegion, relative_to: LogicalRegion) -> Option<EmbeddedRegion> {
    let x1 = embed_x_start(viewport, relative_to);
    let x2 = embed_x_end(viewport, relative_to);
    let y1 = embed_y_start(viewport, relative_to);
    let y2 = embed_y_end(viewport, relative_to);
    if x2 - x1 >= 1 && y2 - y1 >= 1 {
        Some(EmbeddedRegion {
            relative_to,
            inner: Region {
                position: Position { x: x1 as i32, y: y1 as i32 },
                size: Size { width: (x2 - x1) as u32, height: (y2 - y1) as u32 },
            },
        })
    } else {
        None
    }
}

/// The region that `EmbeddedRegion::logical` returns.
pub open spec fn logical_spec(e: EmbeddedRegion) -> LogicalRegion {
    LogicalRegion {
        inner: Region {
            position: Position {
                x: (e.relative_to.inner.position.x + e.inner.position.x) as i32,
                y: (e.relative_to.inner.position.y + e.inner.position.y) as i32,
            },
            size: e.inner.size,
        },
    }
}

/// Whether `EmbeddedRegion::logical` computes without an arithmetic overflow.
pub open spec fn logical_in_range(e: EmbeddedRegion) -> bool {
    &&& in_i32(e.relative_to.inner.position.x + e.inner.position.x)
    &&& in_i32(e.relative_to.inner.position.y + e.inner.position.y)
}


/// Left edge of a rectangle.
pub open spec fn left(r: Region) -> int {
    r.position.x as int
}

/// Right edge (exclusive) of a rectangle.
pub open spec fn right(r: Region) -> int {
    r.position.x + r.size.width
}

/// Top edge of a rectangle.
pub open spec fn top(r: Region) -> int {
    r.position.y as int
}

/// Bottom edge (exclusive) of a rectangle.
pub open spec fn bottom(r: Region) -> int {
    r.position.y + r.size.height
}

/// Whether two rectangles share an area of at least one unit.
pub open spec fn overlaps(a: Region, b: Region) -> bool {
    &&& max_int(left(a), left(b)) < min_int(right(a), right(b))
    &&& max_int(top(a), top(b)) < min_int(bottom(a), bottom(b))
}

/// The common part of two overlapping rectangles.
pub open spec fn intersection(a: Region, b: Region) -> Region {
    Region {
        position: Position {
            x: max_int(left(a), left(b)) as i32,
            y: max_int(top(a), top(b)) as i32,
        },
        size: Size {
            width: (min_int(right(a), right(b)) - max_int(left(a), left(b))) as u32,
            height: (min_int(bottom(a), bottom(b)) - max_int(top(a), top(b))) as u32,
        },
    }
}

/// Whether a region lies within `[0, width) x [0, height)` of a size.
pub open spec fn fits_within(inner: Region, bounds: Size) -> bool {
    &&& 0 <= inner.position.x
    &&& 0 <= inner.position.y
    &&& inner.position.x + inner.size.width <= bounds.width
    &&& inner.position.y + inner.size.height <= bounds.height
}

/// An embedded region stays within the region it is relative to, and within
/// the viewport it was cut from.
pub proof fn lemma_embedded_region_within_bounds(viewport: LogicalRegion, relative_to: LogicalRegion)
    requires
        embed_in_range(viewport, relative_to),
    ensures
        embed_spec(viewport, relative_to) matches Some(e) ==> {
            &&& e.relative_to == relative_to
            &&& fits_within(e.inner, relative_to.inner.size)
            &&& e.inner.size.width >= 1
            &&& e.inner.size.height >= 1
            &&& logical_in_range(e)
            &&& left(viewport.inner) <= left(logical_spec(e).inner)
            &&& top(viewport.inner) <= top(logical_spec(e).inner)
            &&& right(logical_spec(e).inner) <= right(viewport.inner)
            &&& bottom(logical_spec(e).inner) <= bottom(viewport.inner)
        },
{
}

/// When no size exceeds `i32::MAX`, `EmbeddedRegion::new` gives a region exactly
/// when the viewport and the embedding region overlap, and the logical region
/// of what it gives is their intersection.
pub proof fn lemma_embedded_region_is_intersection(viewport: LogicalRegion, relative_to: LogicalRegion)
    requires
        embed_in_range(viewport, relative_to),
        viewport.inner.size.width <= i32::MAX,
        viewport.inner.size.height <= i32::MAX,
        relative_to.inner.size.width <= i32::MAX,
        relative_to.inner.size.height <= i32::MAX,
    ensures
        embed_spec(viewport, relative_to) is Some <==> overlaps(viewport.inner, relative_to.inner),
        embed_spec(viewport, relative_to) matches Some(e) ==> {
            &&& logical_in_range(e)
            &&& logical_spec(e).inner == intersection(viewport.inner, relative_to.inner)
        },
{
}

/// `w as i32` for a `u32`, with the wrap of a value above `i32::MAX` made explicit.
pub fn u32_to_i32_wrapping(w: u32) -> (r: i32)
    ensures
        r as int == as_i32(w),
{
    if w <= 0x7fff_ffff {
        w as i32
    } else {
        let low: i32 = (w - 0x8000_0000) as i32;
        low + i32::MIN
    }
}

impl EmbeddedRegion {
    /// Given two `LogicalRegion`s, one seen as the `viewport` and the other
    /// `relative_to` (think the output we want to capture), create an
    /// embedded region that is entirely inside of the `relative_to` region.
    pub fn new(viewport: LogicalRegion, relative_to: LogicalRegion) -> (r: Option<Self>)
        requires
            embed_in_range(viewport, relative_to),
        ensures
            r == embed_spec(viewport, relative_to),
    {
        let x_relative: i32 = viewport.inner.position.x - relative_to.inner.position.x;
        let y_relative: i32 = viewport.inner.position.y - relative_to.inner.position.y;

        let x1: i32 = if x_relative >= 0 { x_relative } else { 0 };
        let vx_end: i32 = x_relative + u32_to_i32_wrapping(viewport.inner.size.width);
        let rw: i32 = u32_to_i32_wrapping(relative_to.inner.size.width);
        let x2: i32 = if vx_end <= rw { vx_end } else { rw };
        let dx: i32 = x2 - x1;
        if dx < 1 {
            return None;
        }
        let width: u32 = dx as u32;

        let y1: i32 = if y_relative >= 0 { y_relative } else { 0 };
        let vy_end: i32 = y_relative + u32_to_i32_wrapping(viewport.inner.size.height);
        let rh: i32 = u32_to_i32_wrapping(relative_to.inner.size.height);
        let y2: i32 = if vy_end <= rh { vy_end } else { rh };
        let dy: i32 = y2 - y1;
        if dy < 1 {
            return None;
        }
        let height: u32 = dy as u32;

        Some(EmbeddedRegion {
            relative_to,
            inner: Region { position: Position { x: x1, y: y1 }, size: Size { width, height } },
        })
    }

    /// Whether `EmbeddedRegion::new` can compute the embedding of `viewport`
    /// in `relative_to` without an arithmetic overflow.
    pub fn embeddable(viewport: LogicalRegion, relative_to: LogicalRegion) -> (r: bool)
        ensures
            r == embed_in_range(viewport, relative_to),
    {
        let lo: i64 = -0x8000_0000;
        let hi: i64 = 0x7fff_ffff;
        let rx: i64 = viewport.inner.position.x as i64 - relative_to.inner.position.x as i64;
        let ry: i64 = viewport.inner.position.y as i64 - relative_to.inner.position.y as i64;
        if rx < lo || rx > hi || ry < lo || ry > hi {
            return false;
        }
        let vw: i64 = u32_to_i32_wrapping(viewport.inner.size.width) as i64;
        let rw: i64 = u32_to_i32_wrapping(relative_to.inner.size.width) as i64;
        let x_end: i64 = rx + vw;
        if x_end < lo || x_end > hi {
            return false;
        }
        let x1: i64 = if rx >= 0 { rx } else { 0 };
        let x2: i64 = if x_end <= rw { x_end } else { rw };
        let dx: i64 = x2 - x1;
        if dx < lo || dx > hi {
            return false;
        }
        if dx < 1 {
            return true;
        }
        let vh: i64 = u32_to_i32_wrapping(viewport.inner.size.height) as i64;
        let rh: i64 = u32_to_i32_wrapping(relative_to.inner.size.height) as i64;
        let y_end: i64 = ry + vh;
        if y_end < lo || y_end > hi {
            return false;
        }
        let y1: i64 = if ry >= 0 { ry } else { 0 };
        let y2: i64 = if y_end <= rh { y_end } else { rh };
        let dy: i64 = y2 - y1;
        lo <= dy && dy <= hi
    }

    /// The `LogicalRegion` of the embedded region, `None` when its position
    /// does not fit in an `i32`.
    pub fn checked_logical(&self) -> (r: Option<LogicalRegion>)
        ensures
            logical_in_range(*self) ==> r == Some(logical_spec(*self)),
            !logical_in_range(*self) ==> r is None,
    {
        let x: i64 = self.relative_to.inner.position.x as i64 + self.inner.position.x as i64;
        let y: i64 = self.relative_to.inner.position.y as i64 + self.inner.position.y as i64;
        if x < -0x8000_0000 || x > 0x7fff_ffff || y < -0x8000_0000 || y > 0x7fff_ffff {
            return None;
        }
        Some(self.logical())
    }

    /// Return the `LogicalRegion` of the embedded region.
    ///
    /// Note that this remains a region of the same size, it's not the inverse
    /// of `EmbeddedRegion::new` which removes the parts that are outside of
    /// the `relative_to` region.
    pub fn logical(&self) -> (r: LogicalRegion)
        requires
            logical_in_range(*self),
        ensures
            r == logical_spec(*self),
    {
        LogicalRegion {
            inner: Region {
                position: Position {
                    x: self.relative_to.inner.position.x + self.inner.position.x,
                    y: self.relative_to.inner.position.y + self.inner.position.y,
                },
                size: self.inner.size,
            },
        }
    }
}

impl Position {
    /// The text of the position: `(x, y)`.
    pub open spec fn text(self) -> Seq<char> {
        seq!['('] + dec_int(self.x as int) + seq![',', ' '] + dec_int(self.y as int) + seq![')']
    }

    /// Renders the position as `(x, y)`.
    pub fn to_string(&self) -> (s: String)
        ensures
            s@ == self.text(),
    {
        let mut s = String::new();
        self.write_to(&mut s);
        s
    }

    /// Appends the text of the position.
    pub fn write_to(&self, s: &mut String)
        ensures
            final(s)@ == old(s)@ + self.text(),
    {
        proof {
            reveal_strlit("(");
            reveal_strlit(", ");
            reveal_strlit(")");
        }
        s.append("(");
        push_i64(s, self.x as i64);
        s.append(", ");
        push_i64(s, self.y as i64);
        s.append(")");
        assert(final(s)@ =~= old(s)@ + self.text());
    }
}

impl Size {
    /// The text of the size: `(widthxheight)`.
    pub open spec fn text(self) -> Seq<char> {
        seq!['('] + dec_nat(self.width as nat) + seq!['x'] + dec_nat(self.height as nat) + seq![')']
    }

    /// Renders the size as `(widthxheight)`.
    pub fn to_string(&self) -> (s: String)
        ensures
            s@ == self.text(),
    {
        let mut s = String::new();
        self.write_to(&mut s);
        s
    }

    /// Appends the text of the size.
    pub fn write_to(&self, s: &mut String)
        ensures
            final(s)@ == old(s)@ + self.text(),
    {
        proof {
            reveal_strlit("(");
            reveal_strlit("x");
            reveal_strlit(")");
        }
        s.append("(");
        push_u64(s, self.width as u64);
        s.append("x");
        push_u64(s, self.height as u64);
        s.append(")");
        assert(final(s)@ =~= old(s)@ + self.text());
    }
}

impl Region {
    /// The text of the region: its position, a space, and its size.
    pub open spec fn text(self) -> Seq<char> {
        self.position.text() + seq![' '] + self.size.text()
    }

    /// Renders the region as `(x, y) (widthxheight)`.
    pub fn to_string(&self) -> (s: String)
        ensures
            s@ == self.text(),
    {
        let mut s = String::new();
        self.write_to(&mut s);
        s
    }

    /// Appends the text of the region.
    pub fn write_to(&self, s: &mut String)
        ensures
            final(s)@ == old(s)@ + self.text(),
    {
        proof {
            reveal_strlit(" ");
        }
        self.position.write_to(s);
        s.append(" ");
        self.size.write_to(s);
        assert(final(s)@ =~= old(s)@ + self.text());
    }
}

impl LogicalRegion {
    /// The text of a logical region is that of its inner region.
    pub open spec fn text(self) -> Seq<char> {
        self.inner.text()
    }

    /// Renders the logical region as its inner region.
    pub fn to_string(&self) -> (s: String)
        ensures
            s@ == self.text(),
    {
        self.inner.to_string()
    }
}

impl EmbeddedRegion {
    /// The text of an embedded region: `<inner> relative to <relative_to>`.
    pub open spec fn text(self) -> Seq<char> {
        self.inner.text() + seq![' ', 'r', 'e', 'l', 'a', 't', 'i', 'v', 'e', ' ', 't', 'o', ' ']
            + self.relative_to.text()
    }

    /// Renders the embedded region as `<inner> relative to <relative_to>`.
    pub fn to_string(&self) -> (s: String)
        ensures
            s@ == self.text(),
    {
        proof {
            reveal_strlit(" relative to ");
        }
        let mut s = String::new();
        self.inner.write_to(&mut s);
        s.append(" relative to ");
        self.relative_to.inner.write_to(&mut s);
        assert(s@ =~= self.text());
        s
    }
}

} // verus!
