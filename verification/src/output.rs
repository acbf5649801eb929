//! Outputs (monitors) and what the library records about them.

use vstd::prelude::*;

use wayland_client::protocol::wl_output::WlOutput;

use crate::error::Error;
use crate::text::{dec_int, dec_nat, push_i64, push_u64};
use crate::region::{
    as_i32, in_i32, max_int, min_int, LogicalRegion, Position, Region, Size,
};

verus! {

#[verifier::external_type_specification]
#[verifier::external_body]
pub struct ExWlOutput(WlOutput);

/// `Clone` of the output handle, derived by the protocol code generator:
/// the copy holds the same object id and version and shares the same
/// object data and backend pointers, so it is the same handle.
pub assume_specification[ <WlOutput as Clone>::clone ](o: &WlOutput) -> (r: WlOutput)
    ensures
        r == *o,
;

/// Transform applied to the content of an output.
#[derive(Debug, Copy, Clone, PartialEq, Eq, Hash, Structural)]
pub enum Transform {
    Normal,
    _90,
    _180,
    _270,
    Flipped,
    Flipped90,
    Flipped180,
    Flipped270,
}

impl Transform {
    /// Whether the transform turns the content by a quarter or three quarters,
    /// so that width and height trade places.
    pub open spec fn is_quarter_turn(self) -> bool {
        self is _90 || self is _270 || self is Flipped90 || self is Flipped270
    }

    /// Whether the transform turns the content by a quarter or three quarters.
    pub fn swaps_axes(&self) -> (r: bool)
        ensures
            r == self.is_quarter_turn(),
    {
        match self {
            Transform::_90 | Transform::_270 | Transform::Flipped90 | Transform::Flipped270 => true,
            _ => false,
        }
    }
}

/// Represents an accessible wayland output.
///
/// The transform decides how the captured image is turned; the physical
/// size and the logical region are needed to compose region screenshots.
#[derive(Debug, Clone, PartialEq, Eq, Hash)]
pub struct OutputInfo {
    pub wl_output: WlOutput,
    pub name: String,
    pub description: String,
    pub transform: Transform,
    pub physical_size: Size,
    pub logical_region: LogicalRegion,
}

/// The zero size.
pub open spec fn zero_size() -> Size {
    Size { width: 0, height: 0 }
}

/// The zero region at the origin.
pub open spec fn zero_logical_region() -> LogicalRegion {
    LogicalRegion { inner: Region { position: Position { x: 0, y: 0 }, size: zero_size() } }
}

/// Whether an output carries nothing but the defaults besides its handle.
pub open spec fn has_default_fields(o: OutputInfo) -> bool {
    &&& o.name@ == Seq::<char>::empty()
    &&& o.description@ == Seq::<char>::empty()
    &&& o.transform == Transform::Normal
    &&& o.physical_size == zero_size()
    &&& o.logical_region == zero_logical_region()
}

impl OutputInfo {
    /// Create an [OutputInfo] with empty name and description, the normal
    /// transform and zero sizes.
    pub fn new(wl_output: WlOutput) -> (r: Self)
        ensures
            r.wl_output == wl_output,
            has_default_fields(r),
    {
        OutputInfo {
            wl_output,
            name: String::new(),
            description: String::new(),
            transform: Transform::Normal,
            physical_size: Size { width: 0, height: 0 },
            logical_region: LogicalRegion::default(),
        }
    }

    /// Set the transform of the [OutputInfo].
    pub fn transform(self, transform: Transform) -> (r: Self)
        ensures
            r == (OutputInfo { transform, ..self }),
    {
        let mut s = self;
        s.transform = transform;
        s
    }

    /// The text of an output: `name (description)`.
    pub open spec fn text(self) -> Seq<char> {
        self.name@ + seq![' ', '('] + self.description@ + seq![')']
    }

    /// Renders the output as `name (description)`.
    pub fn to_string(&self) -> (s: String)
        ensures
            s@ == self.text(),
    {
        proof {
            reveal_strlit(" (");
            reveal_strlit(")");
        }
        let mut s = String::new();
        s.append(self.name.as_str());
        s.append(" (");
        s.append(self.description.as_str());
        s.append(")");
        assert(s@ =~= self.text());
        s
    }

    /// The lines that describe the output: its name, its description, its
    /// physical size, its logical size and its position.
    pub open spec fn info_text(self) -> Seq<char> {
        self.name@ + "\ndescription: "@ + self.description@ + "\n    Size: "@ + dec_nat(
            self.physical_size.width as nat,
        ) + ","@ + dec_nat(self.physical_size.height as nat) + "\n    LogicSize: "@ + dec_nat(
            self.logical_region.inner.size.width as nat,
        ) + ", "@ + dec_nat(self.logical_region.inner.size.height as nat) + "\n    Position: "@
            + dec_int(self.logical_region.inner.position.x as int) + ", "@ + dec_int(
            self.logical_region.inner.position.y as int,
        ) + "\n"@
    }

    /// The lines that describe the output, as the display listing prints them.
    pub fn display_info(&self) -> (s: String)
        ensures
            s@ == self.info_text(),
    {
        let mut s = String::new();
        s.append(self.name.as_str());
        s.append("\ndescription: ");
        s.append(self.description.as_str());
        s.append("\n    Size: ");
        push_u64(&mut s, self.physical_size.width as u64);
        s.append(",");
        push_u64(&mut s, self.physical_size.height as u64);
        s.append("\n    LogicSize: ");
        push_u64(&mut s, self.logical_region.inner.size.width as u64);
        s.append(", ");
        push_u64(&mut s, self.logical_region.inner.size.height as u64);
        s.append("\n    Position: ");
        push_i64(&mut s, self.logical_region.inner.position.x as i64);
        s.append(", ");
        push_i64(&mut s, self.logical_region.inner.position.y as i64);
        s.append("\n");
        s
    }

    /// Return the physical size.
    pub fn physical_size(&self) -> (r: Size)
        ensures
            r == self.physical_size,
    {
        self.physical_size
    }

    /// Return the logical size.
    pub fn logical_size(&self) -> (r: Size)
        ensures
            r == self.logical_region.inner.size,
    {
        self.logical_region.inner.size
    }

    /// Return the position of the output in the logical space.
    pub fn logical_position(&self) -> (r: Position)
        ensures
            r == self.logical_region.inner.position,
    {
        self.logical_region.inner.position
    }

    /// The handle of the output.
    pub fn wl_output(&self) -> (r: &WlOutput)
        ensures
            *r == self.wl_output,
    {
        &self.wl_output
    }
}

/// Left edge of an output in the logical space.
pub open spec fn out_left(o: OutputInfo) -> int {
    o.logical_region.inner.position.x as int
}

/// Top edge of an output in the logical space.
pub open spec fn out_top(o: OutputInfo) -> int {
    o.logical_region.inner.position.y as int
}

/// Right edge of an output, with its width read as an `i32`.
pub open spec fn out_right(o: OutputInfo) -> int {
    o.logical_region.inner.position.x + as_i32(o.logical_region.inner.size.width)
}

/// Bottom edge of an output, with its height read as an `i32`.
pub open spec fn out_bottom(o: OutputInfo) -> int {
    o.logical_region.inner.position.y + as_i32(o.logical_region.inner.size.height)
}

/// Smallest left edge among a non-empty sequence of outputs.
pub open spec fn min_left(s: Seq<OutputInfo>) -> int
    decreases s.len(),
{
    if s.len() <= 1 {
        out_left(s[0])
    } else {
        min_int(min_left(s.drop_last()), out_left(s.last()))
    }
}

/// Smallest top edge among a non-empty sequence of outputs.
pub open spec fn min_top(s: Seq<OutputInfo>) -> int
    decreases s.len(),
{
    if s.len() <= 1 {
        out_top(s[0])
    } else {
        min_int(min_top(s.drop_last()), out_top(s.last()))
    }
}

/// Largest right edge among a non-empty sequence of outputs.
pub open spec fn max_right(s: Seq<OutputInfo>) -> int
    decreases s.len(),
{
    if s.len() <= 1 {
        out_right(s[0])
    } else {
        max_int(max_right(s.drop_last()), out_right(s.last()))
    }
}

/// Largest bottom edge among a non-empty sequence of outputs.
pub open spec fn max_bottom(s: Seq<OutputInfo>) -> int
    decreases s.len(),
{
    if s.len() <= 1 {
        out_bottom(s[0])
    } else {
        max_int(max_bottom(s.drop_last()), out_bottom(s.last()))
    }
}

/// The inputs on which the bounding region of outputs computes without an overflow.
pub open spec fn bounds_in_range(s: Seq<OutputInfo>) -> bool {
    &&& forall|i: int| 0 <= i < s.len() ==> in_i32(#[trigger] out_right(s[i]))
    &&& forall|i: int| 0 <= i < s.len() ==> in_i32(#[trigger] out_bottom(s[i]))
    &&& s.len() > 0 ==> in_i32(max_right(s) - min_left(s))
    &&& s.len() > 0 ==> in_i32(max_bottom(s) - min_top(s))
}

/// The region that spans a non-empty sequence of outputs.
pub open spec fn bounding_spec(s: Seq<OutputInfo>) -> LogicalRegion {
    LogicalRegion {
        inner: Region {
            position: Position { x: min_left(s) as i32, y: min_top(s) as i32 },
            size: Size {
                width: (max_right(s) - min_left(s)) as u32,
                height: (max_bottom(s) - min_top(s)) as u32,
            },
        },
    }
}

/// Each edge of the span of outputs is at or beyond the same edge of each output.
proof fn lemma_extremes_bound(s: Seq<OutputInfo>, i: int)
    requires
        0 <= i < s.len(),
    ensures
        min_left(s) <= out_left(s[i]),
        min_top(s) <= out_top(s[i]),
        out_right(s[i]) <= max_right(s),
        out_bottom(s[i]) <= max_bottom(s),
    decreases s.len(),
{
    if s.len() > 1 && i < s.len() - 1 {
        lemma_extremes_bound(s.drop_last(), i);
    }
}

/// Each edge of the span of outputs is the edge of one of them.
proof fn lemma_extremes_attained(s: Seq<OutputInfo>)
    requires
        s.len() > 0,
    ensures
        exists|i: int| 0 <= i < s.len() && min_left(s) == out_left(#[trigger] s[i]),
        exists|i: int| 0 <= i < s.len() && min_top(s) == out_top(#[trigger] s[i]),
        exists|i: int| 0 <= i < s.len() && max_right(s) == out_right(#[trigger] s[i]),
        exists|i: int| 0 <= i < s.len() && max_bottom(s) == out_bottom(#[trigger] s[i]),
    decreases s.len(),
{
    if s.len() > 1 {
        let t = s.drop_last();
        lemma_extremes_attained(t);
        let last = s.len() - 1;
        assert(s[last] == s.last());
        if min_left(t) <= out_left(s.last()) {
            let j = choose|j: int| 0 <= j < t.len() && min_left(t) == out_left(#[trigger] t[j]);
            assert(s[j] == t[j]);
        } else {
            assert(min_left(s) == out_left(s[last]));
        }
        if min_top(t) <= out_top(s.last()) {
            let j = choose|j: int| 0 <= j < t.len() && min_top(t) == out_top(#[trigger] t[j]);
            assert(s[j] == t[j]);
        } else {
            assert(min_top(s) == out_top(s[last]));
        }
        if max_right(t) >= out_right(s.last()) {
            let j = choose|j: int| 0 <= j < t.len() && max_right(t) == out_right(#[trigger] t[j]);
            assert(s[j] == t[j]);
        } else {
            assert(max_right(s) == out_right(s[last]));
        }
        if max_bottom(t) >= out_bottom(s.last()) {
            let j = choose|j: int| 0 <= j < t.len() && max_bottom(t) == out_bottom(#[trigger] t[j]);
            assert(s[j] == t[j]);
        } else {
            assert(max_bottom(s) == out_bottom(s[last]));
        }
    } else {
        assert(out_left(s[0]) == min_left(s));
        assert(out_top(s[0]) == min_top(s));
        assert(out_right(s[0]) == max_right(s));
        assert(out_bottom(s[0]) == max_bottom(s));
    }
}

/// The region that `LogicalRegion::try_from` gives for outputs whose sizes do
/// not exceed `i32::MAX` is the smallest one that holds each of them: every
/// output lies inside it, and each of its edges is the edge of some output.
pub proof fn lemma_bounding_region_spans_outputs(s: Seq<OutputInfo>)
    requires
        s.len() > 0,
        bounds_in_range(s),
        forall|i: int| 0 <= i < s.len() ==> (#[trigger] s[i]).logical_region.inner.size.width <= i32::MAX,
        forall|i: int| 0 <= i < s.len() ==> (#[trigger] s[i]).logical_region.inner.size.height <= i32::MAX,
    ensures
        forall|i: int| 0 <= i < s.len() ==> {
            &&& crate::region::left(bounding_spec(s).inner) <= crate::region::left((#[trigger] s[i]).logical_region.inner)
            &&& crate::region::top(bounding_spec(s).inner) <= crate::region::top(s[i].logical_region.inner)
            &&& crate::region::right(s[i].logical_region.inner) <= crate::region::right(bounding_spec(s).inner)
            &&& crate::region::bottom(s[i].logical_region.inner) <= crate::region::bottom(bounding_spec(s).inner)
        },
        exists|i: int| 0 <= i < s.len() && crate::region::left(bounding_spec(s).inner) == crate::region::left((#[trigger] s[i]).logical_region.inner),
        exists|i: int| 0 <= i < s.len() && crate::region::top(bounding_spec(s).inner) == crate::region::top((#[trigger] s[i]).logical_region.inner),
        exists|i: int| 0 <= i < s.len() && crate::region::right(bounding_spec(s).inner) == crate::region::right((#[trigger] s[i]).logical_region.inner),
        exists|i: int| 0 <= i < s.len() && crate::region::bottom(bounding_spec(s).inner) == crate::region::bottom((#[trigger] s[i]).logical_region.inner),
{
    lemma_extremes_bound(s, 0);
    lemma_extremes_attained(s);
    let i1 = choose|i: int| 0 <= i < s.len() && min_left(s) == out_left(#[trigger] s[i]);
    let i2 = choose|i: int| 0 <= i < s.len() && min_top(s) == out_top(#[trigger] s[i]);
    assert(in_i32(min_left(s)) && in_i32(min_top(s)));
    assert(s[0].logical_region.inner.size.width <= i32::MAX);
    assert(s[0].logical_region.inner.size.height <= i32::MAX);
    assert(max_right(s) - min_left(s) >= 0);
    assert(max_bottom(s) - min_top(s) >= 0);
    assert(bounding_spec(s).inner.size.width == max_right(s) - min_left(s));
    assert(bounding_spec(s).inner.size.height == max_bottom(s) - min_top(s));
    assert forall|i: int| 0 <= i < s.len() implies {
        &&& crate::region::left(bounding_spec(s).inner) <= crate::region::left((#[trigger] s[i]).logical_region.inner)
        &&& crate::region::top(bounding_spec(s).inner) <= crate::region::top(s[i].logical_region.inner)
        &&& crate::region::right(s[i].logical_region.inner) <= crate::region::right(bounding_spec(s).inner)
        &&& crate::region::bottom(s[i].logical_region.inner) <= crate::region::bottom(bounding_spec(s).inner)
    } by {
        lemma_extremes_bound(s, i);
    }
    assert(crate::region::left(bounding_spec(s).inner) == crate::region::left(s[i1].logical_region.inner));
    assert(crate::region::top(bounding_spec(s).inner) == crate::region::top(s[i2].logical_region.inner));
    let i3 = choose|i: int| 0 <= i < s.len() && max_right(s) == out_right(#[trigger] s[i]);
    lemma_extremes_bound(s, i3);
    assert(crate::region::right(bounding_spec(s).inner) == crate::region::right(s[i3].logical_region.inner));
    let i4 = choose|i: int| 0 <= i < s.len() && max_bottom(s) == out_bottom(#[trigger] s[i]);
    lemma_extremes_bound(s, i4);
    assert(crate::region::bottom(bounding_spec(s).inner) == crate::region::bottom(s[i4].logical_region.inner));
}

impl LogicalRegion {
    /// The logical region of an output.
    pub fn from(output_info: &OutputInfo) -> (r: LogicalRegion)
        ensures
            r == output_info.logical_region,
    {
        LogicalRegion { inner: output_info.logical_region.inner }
    }

    /// The region that spans all given outputs; `NoOutputs` when there is none.
    pub fn try_from(output_info: &[OutputInfo]) -> (r: Result<LogicalRegion, Error>)
        requires
            bounds_in_range(output_info@),
        ensures
            output_info@.len() == 0 ==> r == Err::<LogicalRegion, Error>(Error::NoOutputs),
            output_info@.len() > 0 ==> r == Ok::<LogicalRegion, Error>(bounding_spec(output_info@)),
    {
        let n = output_info.len();
        if n == 0 {
            return Err(Error::NoOutputs);
        }
        let ghost s = output_info@;
        let first = &output_info[0];
        assert(in_i32(out_right(s[0])) && in_i32(out_bottom(s[0])));
        let mut x1: i32 = first.logical_region.inner.position.x;
        let mut y1: i32 = first.logical_region.inner.position.y;
        let mut x2: i32 = first.logical_region.inner.position.x + crate::region::u32_to_i32_wrapping(
            first.logical_region.inner.size.width,
        );
        let mut y2: i32 = first.logical_region.inner.position.y + crate::region::u32_to_i32_wrapping(
            first.logical_region.inner.size.height,
        );
        assert(s.take(1).len() == 1 && s.take(1)[0] == s[0]);
        let mut i: usize = 1;
        while i < n
            invariant
                1 <= i <= n,
                n == s.len(),
                s == output_info@,
                bounds_in_range(s),
                x1 == min_left(s.take(i as int)),
                y1 == min_top(s.take(i as int)),
                x2 == max_right(s.take(i as int)),
                y2 == max_bottom(s.take(i as int)),
            decreases n - i,
        {
            let o = &output_info[i];
            assert(in_i32(out_right(s[i as int])));
            assert(in_i32(out_bottom(s[i as int])));
            let ox: i32 = o.logical_region.inner.position.x;
            let oy: i32 = o.logical_region.inner.position.y;
            let ox2: i32 = ox + crate::region::u32_to_i32_wrapping(o.logical_region.inner.size.width);
            let oy2: i32 = oy + crate::region::u32_to_i32_wrapping(o.logical_region.inner.size.height);
            if ox < x1 {
                x1 = ox;
            }
            if oy < y1 {
                y1 = oy;
            }
            if ox2 > x2 {
                x2 = ox2;
            }
            if oy2 > y2 {
                y2 = oy2;
            }
            assert(s.take(i + 1).drop_last() =~= s.take(i as int));
            assert(s.take(i + 1).last() == s[i as int]);
            i = i + 1;
        }
        assert(s.take(n as int) =~= s);
        let w: i32 = x2 - x1;
        let h: i32 = y2 - y1;
        Ok(
            LogicalRegion {
                inner: Region {
                    position: Position { x: x1, y: y1 },
                    size: Size { width: #[verifier::truncate] (w as u32), height: #[verifier::truncate] (h as u32) },
                },
            },
        )
    }
}

/// Whether `LogicalRegion::try_from` can compute the region that spans the
/// outputs without an arithmetic overflow.
pub fn bounds_computable(output_info: &[OutputInfo]) -> (r: bool)
    ensures
        r == bounds_in_range(output_info@),
{
    let n = output_info.len();
    let ghost s = output_info@;
    let lo: i64 = -0x8000_0000;
    let hi: i64 = 0x7fff_ffff;
    let mut x1: i64 = 0;
    let mut y1: i64 = 0;
    let mut x2: i64 = 0;
    let mut y2: i64 = 0;
    let mut i: usize = 0;
    while i < n
        invariant
            i <= n,
            n == s.len(),
            s == output_info@,
            lo == -0x8000_0000,
            hi == 0x7fff_ffff,
            forall|j: int| 0 <= j < i ==> in_i32(#[trigger] out_right(s[j])),
            forall|j: int| 0 <= j < i ==> in_i32(#[trigger] out_bottom(s[j])),
            lo <= x1 <= hi,
            lo <= y1 <= hi,
            lo <= x2 <= hi,
            lo <= y2 <= hi,
            i > 0 ==> {
                &&& x1 == min_left(s.take(i as int))
                &&& y1 == min_top(s.take(i as int))
                &&& x2 == max_right(s.take(i as int))
                &&& y2 == max_bottom(s.take(i as int))
            },
        decreases n - i,
    {
        let o = &output_info[i];
        let ox: i64 = o.logical_region.inner.position.x as i64;
        let oy: i64 = o.logical_region.inner.position.y as i64;
        let ox2: i64 = ox + crate::region::u32_to_i32_wrapping(o.logical_region.inner.size.width) as i64;
        let oy2: i64 = oy + crate::region::u32_to_i32_wrapping(o.logical_region.inner.size.height) as i64;
        if ox2 < lo || ox2 > hi || oy2 < lo || oy2 > hi {
            assert(!in_i32(out_right(s[i as int])) || !in_i32(out_bottom(s[i as int])));
            return false;
        }
        assert(in_i32(out_right(s[i as int])) && in_i32(out_bottom(s[i as int])));
        if i == 0 {
            x1 = ox;
            y1 = oy;
            x2 = ox2;
            y2 = oy2;
            assert(s.take(1).len() == 1 && s.take(1)[0] == s[0]);
        } else {
            if ox < x1 {
                x1 = ox;
            }
            if oy < y1 {
                y1 = oy;
            }
            if ox2 > x2 {
                x2 = ox2;
            }
            if oy2 > y2 {
                y2 = oy2;
            }
            assert(s.take(i + 1).drop_last() =~= s.take(i as int));
            assert(s.take(i + 1).last() == s[i as int]);
        }
        i = i + 1;
    }
    if n == 0 {
        return true;
    }
    assert(s.take(n as int) =~= s);
    let w: i64 = x2 - x1;
    let h: i64 = y2 - y1;
    lo <= w && w <= hi && lo <= h && h <= hi
}

/// A value that can be turned into an [OutputInfo].
pub trait ToOutputInfo {
    fn output_info(self) -> OutputInfo;
}

impl AsRef<WlOutput> for OutputInfo {
    fn as_ref(&self) -> (r: &WlOutput)
        ensures
            *r == self.wl_output,
    {
        &self.wl_output
    }
}

impl ToOutputInfo for WlOutput {
    /// An [OutputInfo] of this output with default fields.
    fn output_info(self) -> (r: OutputInfo)
        ensures
            r.wl_output == self,
            has_default_fields(r),
    {
        OutputInfo::new(self)
    }
}

impl ToOutputInfo for &WlOutput {
    /// An [OutputInfo] of a copy of this output's handle, with default fields.
    fn output_info(self) -> (r: OutputInfo)
        ensures
            r.wl_output == *self,
            has_default_fields(r),
    {
        OutputInfo::new(self.clone())
    }
}

impl ToOutputInfo for OutputInfo {
    /// The [OutputInfo] itself.
    fn output_info(self) -> (r: OutputInfo)
        ensures
            r == self,
    {
        self
    }
}

impl ToOutputInfo for &OutputInfo {
    /// A copy of the [OutputInfo], with a copy of its output's handle.
    fn output_info(self) -> (r: OutputInfo)
        ensures
            r == *self,
    {
        OutputInfo {
            wl_output: self.wl_output.clone(),
            name: self.name.clone(),
            description: self.description.clone(),
            transform: self.transform,
            physical_size: self.physical_size,
            logical_region: self.logical_region,
        }
    }
}

} // verus!
