//! The logic of the `wayshot` command line program: reading a geometry
//! string, finding the outputs a region touches, picking an encoding from a
//! file extension and naming the output file.

use vstd::prelude::*;

use crate::convert::ShmFormat;
use crate::dispatch::XdgOutputEvent;
use crate::screencopy::FrameFormat;
use crate::text::{dec_int, dec_nat, digit_char, push_u64};

verus! {

/// Struct to store region capture details.
#[derive(Debug, Copy, Clone, PartialEq, Eq, Structural)]
pub struct CaptureRegion {
    /// X coordinate of the area to capture.
    pub x_coordinate: i32,
    /// Y coordinate of the area to capture.
    pub y_coordinate: i32,
    /// Width of the capture area.
    pub width: i32,
    /// Height of the capture area.
    pub height: i32,
}

/// Supported image encoding formats.
#[derive(Debug, Copy, Clone, PartialEq, Eq, Structural)]
pub enum EncodingFormat {
    /// Jpeg / jpg encoder.
    Jpg,
    /// Png encoder.
    Png,
    /// Portable pixmap encoder.
    Ppm,
}

/// Position and size of an output in the compositor's logical space.
#[derive(Debug, Copy, Clone, PartialEq, Eq, Structural)]
pub struct OutputPositioning {
    pub x: i32,
    pub y: i32,
    pub width: i32,
    pub height: i32,
}

impl Default for OutputPositioning {
    fn default() -> (r: Self)
        ensures
            r == (OutputPositioning { x: 0, y: 0, width: 0, height: 0 }),
    {
        OutputPositioning { x: 0, y: 0, width: 0, height: 0 }
    }
}

/// Whether `c` has the Unicode `White_Space` property, the characters that
/// `str::trim` removes.
pub open spec fn is_white_space(c: char) -> bool {
    let n = c as u32;
    ||| 0x09 <= n <= 0x0d
    ||| n == 0x20
    ||| n == 0x85
    ||| n == 0xa0
    ||| n == 0x1680
    ||| 0x2000 <= n <= 0x200a
    ||| n == 0x2028
    ||| n == 0x2029
    ||| n == 0x202f
    ||| n == 0x205f
    ||| n == 0x3000
}

/// Whether a character has the Unicode `White_Space` property.
pub fn is_white_space_char(c: char) -> (r: bool)
    ensures
        r == is_white_space(c),
{
    let n = c as u32;
    (0x09 <= n && n <= 0x0d) || n == 0x20 || n == 0x85 || n == 0xa0 || n == 0x1680 || (0x2000
        <= n && n <= 0x200a) || n == 0x2028 || n == 0x2029 || n == 0x202f || n == 0x205f || n
        == 0x3000
}

/// `s` without its leading white space.
pub open spec fn trim_start(s: Seq<char>) -> Seq<char>
    decreases s.len(),
{
    if s.len() > 0 && is_white_space(s[0]) {
        trim_start(s.drop_first())
    } else {
        s
    }
}

/// `s` without its trailing white space.
pub open spec fn trim_end(s: Seq<char>) -> Seq<char>
    decreases s.len(),
{
    if s.len() > 0 && is_white_space(s.last()) {
        trim_end(s.drop_last())
    } else {
        s
    }
}

/// `s` without its leading and trailing white space.
pub open spec fn trim(s: Seq<char>) -> Seq<char> {
    trim_end(trim_start(s))
}

/// The characters of a string.
pub fn chars_of(s: &str) -> (v: Vec<char>)
    ensures
        v@ == s@,
{
    let mut v: Vec<char> = Vec::new();
    for c in it: s.chars()
        invariant
            v.len() == it.index(),
            forall|i: int| 0 <= i < v.len() ==> v@[i] == it.seq()[i],
    {
        v.push(c);
    }
    assert(v@ =~= s@);
    v
}

/// The bounds of `v` without its leading and trailing white space:
/// `v[lo..hi]` is `v` trimmed.
pub fn trim_bounds(v: &Vec<char>) -> (r: (usize, usize))
    ensures
        r.0 <= r.1 <= v@.len(),
        v@.subrange(r.0 as int, r.1 as int) == trim(v@),
{
    let n = v.len();
    let mut lo: usize = 0;
    assert(v@.subrange(0, n as int) =~= v@);
    while lo < n && is_white_space_char(v[lo])
        invariant
            n == v@.len(),
            lo <= n,
            trim_start(v@) == trim_start(v@.subrange(lo as int, n as int)),
        decreases n - lo,
    {
        assert(v@.subrange(lo as int, n as int).drop_first() =~= v@.subrange(
            lo as int + 1,
            n as int,
        ));
        lo = lo + 1;
    }
    assert(trim_start(v@) == v@.subrange(lo as int, n as int));
    let mut hi: usize = n;
    while hi > lo && is_white_space_char(v[hi - 1])
        invariant
            n == v@.len(),
            lo <= hi <= n,
            trim(v@) == trim_end(v@.subrange(lo as int, hi as int)),
        decreases hi,
    {
        assert(v@.subrange(lo as int, hi as int).drop_last() =~= v@.subrange(
            lo as int,
            hi as int - 1,
        ));
        hi = hi - 1;
    }
    (lo, hi)
}

/// `s` split around the first occurrence of `c`, as `str::split_once` does;
/// `None` when `c` does not occur.
pub open spec fn split_once(s: Seq<char>, c: char) -> Option<(Seq<char>, Seq<char>)> {
    match s.index_of_first(c) {
        Some(k) => Some((s.take(k), s.skip(k + 1))),
        None => None,
    }
}

/// Split at a first occurrence found by hand.
proof fn lemma_split_once_at(s: Seq<char>, c: char, k: int)
    requires
        0 <= k < s.len(),
        s[k] == c,
        forall|j: int| 0 <= j < k ==> s[j] != c,
    ensures
        split_once(s, c) == Some((s.take(k), s.skip(k + 1))),
{
    s.index_of_first_ensures(c);
    match s.index_of_first(c) {
        Some(i) => {
            if i < k {
                assert(s[i] != c);
            } else if i > k {
                assert(s[k] != c);
            }
        },
        None => {
            assert(s.contains(c)) by {
                assert(s[k] == c);
            }
        },
    }
}

/// No split where the character does not occur.
proof fn lemma_split_once_none(s: Seq<char>, c: char)
    requires
        forall|j: int| 0 <= j < s.len() ==> s[j] != c,
    ensures
        split_once(s, c) is None,
        !s.contains(c),
{
    s.index_of_first_ensures(c);
}

/// The first index in `v[lo..hi]` that holds `c`.
pub fn find_char(v: &Vec<char>, lo: usize, hi: usize, c: char) -> (r: Option<usize>)
    requires
        lo <= hi <= v@.len(),
    ensures
        match r {
            Some(k) => {
                &&& lo <= k < hi
                &&& v@[k as int] == c
                &&& forall|j: int| lo <= j < k ==> v@[j] != c
            },
            None => forall|j: int| lo <= j < hi ==> v@[j] != c,
        },
{
    let mut i = lo;
    while i < hi
        invariant
            lo <= i <= hi <= v@.len(),
            forall|j: int| lo <= j < i ==> v@[j] != c,
        decreases hi - i,
    {
        if v[i] == c {
            return Some(i);
        }
        i = i + 1;
    }
    None
}

/// Whether `c` is an ASCII decimal digit.
pub open spec fn is_digit(c: char) -> bool {
    0x30 <= (c as u32) <= 0x39
}

/// The value of an ASCII decimal digit.
pub open spec fn digit_value(c: char) -> nat {
    ((c as u32) - 0x30) as nat
}

/// Whether every character of `s` is an ASCII decimal digit.
pub open spec fn all_digits(s: Seq<char>) -> bool {
    forall|i: int| 0 <= i < s.len() ==> is_digit(#[trigger] s[i])
}

/// The number that the decimal digits `s` write.
pub open spec fn digits_value(s: Seq<char>) -> nat
    decreases s.len(),
{
    if s.len() == 0 {
        0
    } else {
        digits_value(s.drop_last()) * 10 + digit_value(s.last())
    }
}

/// The `i32` that `s` writes, as `str::parse::<i32>` reads it: an optional
/// `+` or `-`, then at least one decimal digit; `None` on any other
/// character or when the number does not fit.
pub open spec fn parse_i32(s: Seq<char>) -> Option<i32> {
    let signed = s.len() > 0 && (s[0] == '+' || s[0] == '-');
    let negative = s.len() > 0 && s[0] == '-';
    let digits = if signed {
        s.drop_first()
    } else {
        s
    };
    if digits.len() == 0 || !all_digits(digits) {
        None
    } else if negative {
        if digits_value(digits) <= 0x8000_0000 {
            Some((-digits_value(digits)) as i32)
        } else {
            None
        }
    } else if digits_value(digits) <= 0x7fff_ffff {
        Some(digits_value(digits) as i32)
    } else {
        None
    }
}

/// The value of the digits `v[lo..hi]`, capped at `2^31 + 1`; `None` when
/// one of them is not a digit.
fn capped_digits_value(v: &Vec<char>, lo: usize, hi: usize) -> (r: Option<u64>)
    requires
        lo <= hi <= v@.len(),
    ensures
        match r {
            Some(x) => {
                &&& all_digits(v@.subrange(lo as int, hi as int))
                &&& x == if digits_value(v@.subrange(lo as int, hi as int)) < 0x8000_0001 {
                    digits_value(v@.subrange(lo as int, hi as int))
                } else {
                    0x8000_0001
                }
            },
            None => !all_digits(v@.subrange(lo as int, hi as int)),
        },
{
    let mut acc: u64 = 0;
    let mut i = lo;
    assert(v@.subrange(lo as int, lo as int) =~= Seq::<char>::empty());
    while i < hi
        invariant
            lo <= i <= hi <= v@.len(),
            all_digits(v@.subrange(lo as int, i as int)),
            acc == if digits_value(v@.subrange(lo as int, i as int)) < 0x8000_0001 {
                digits_value(v@.subrange(lo as int, i as int))
            } else {
                0x8000_0001
            },
        decreases hi - i,
    {
        let c = v[i];
        let n = c as u32;
        if n < 0x30 || n > 0x39 {
            assert(!is_digit(v@.subrange(lo as int, hi as int)[i - lo]));
            return None;
        }
        let ghost prefix = v@.subrange(lo as int, i as int + 1);
        assert(prefix.drop_last() =~= v@.subrange(lo as int, i as int));
        assert(prefix.last() == c);
        acc = acc * 10 + (n - 0x30) as u64;
        if acc > 0x8000_0001 {
            acc = 0x8000_0001;
        }
        i = i + 1;
    }
    Some(acc)
}

/// The `i32` that `v[lo..hi]` writes, as `str::parse::<i32>` reads it.
pub fn parse_i32_in(v: &Vec<char>, lo: usize, hi: usize) -> (r: Option<i32>)
    requires
        lo <= hi <= v@.len(),
    ensures
        r == parse_i32(v@.subrange(lo as int, hi as int)),
{
    let ghost s = v@.subrange(lo as int, hi as int);
    if lo == hi {
        return None;
    }
    let first = v[lo];
    let signed = first == '+' || first == '-';
    let negative = first == '-';
    let start = if signed {
        lo + 1
    } else {
        lo
    };
    assert(signed ==> s.drop_first() =~= v@.subrange(start as int, hi as int));
    if start == hi {
        return None;
    }
    match capped_digits_value(v, start, hi) {
        None => None,
        Some(x) => {
            if negative {
                if x <= 0x8000_0000 {
                    let m = x as i64;
                    Some((-m) as i32)
                } else {
                    None
                }
            } else if x <= 0x7fff_ffff {
                Some(x as i32)
            } else {
                None
            }
        },
    }
}

/// The number before the first `sep` of `s`, and what follows that `sep`.
pub open spec fn field_then(s: Seq<char>, sep: char) -> Option<(i32, Seq<char>)> {
    match split_once(s, sep) {
        Some((head, rest)) => match parse_i32(head) {
            Some(x) => Some((x, rest)),
            None => None,
        },
        None => None,
    }
}

/// Reads the number before the first `sep` of `v[lo..hi]`; gives it and
/// the index just after that `sep`.
fn next_field(v: &Vec<char>, lo: usize, hi: usize, sep: char) -> (r: Option<(i32, usize)>)
    requires
        lo <= hi <= v@.len(),
    ensures
        match r {
            Some((x, next)) => lo < next <= hi && field_then(v@.subrange(lo as int, hi as int), sep)
                == Some((x, v@.subrange(next as int, hi as int))),
            None => field_then(v@.subrange(lo as int, hi as int), sep) is None,
        },
{
    let ghost s = v@.subrange(lo as int, hi as int);
    match find_char(v, lo, hi, sep) {
        None => {
            proof {
                lemma_split_once_none(s, sep);
            }
            None
        },
        Some(k) => {
            proof {
                lemma_split_once_at(s, sep, k - lo);
                assert(s.take(k - lo) =~= v@.subrange(lo as int, k as int));
                assert(s.skip(k - lo + 1) =~= v@.subrange(k as int + 1, hi as int));
            }
            match parse_i32_in(v, lo, k) {
                Some(x) => Some((x, k + 1)),
                None => None,
            }
        },
    }
}

/// The region four numbers separated by `a`, `b` and `c` describe: x, y,
/// width and height.
pub open spec fn geometry_with(s: Seq<char>, a: char, b: char, c: char) -> Option<CaptureRegion> {
    match field_then(s, a) {
        Some((x, s1)) => match field_then(s1, b) {
            Some((y, s2)) => match field_then(s2, c) {
                Some((w, s3)) => match parse_i32(s3) {
                    Some(h) => Some(
                        CaptureRegion { x_coordinate: x, y_coordinate: y, width: w, height: h },
                    ),
                    None => None,
                },
                None => None,
            },
            None => None,
        },
        None => None,
    }
}

/// The region a geometry string describes, once trimmed: `"%d,%d %dx%d"`
/// when it holds a comma, else `"%d %d %d %d"`.
pub open spec fn geometry_spec(g: Seq<char>) -> Option<CaptureRegion> {
    let t = trim(g);
    if t.contains(',') {
        geometry_with(t, ',', ' ', 'x')
    } else {
        geometry_with(t, ' ', ' ', ' ')
    }
}

/// Reads `v[lo..hi]` as four numbers separated by `a`, `b` and `c`.
fn geometry_in(v: &Vec<char>, lo: usize, hi: usize, a: char, b: char, c: char) -> (r: Option<CaptureRegion>)
    requires
        lo <= hi <= v@.len(),
    ensures
        r == geometry_with(v@.subrange(lo as int, hi as int), a, b, c),
{
    let (x, i1) = match next_field(v, lo, hi, a) {
        Some(f) => f,
        None => {
            return None;
        },
    };
    let (y, i2) = match next_field(v, i1, hi, b) {
        Some(f) => f,
        None => {
            return None;
        },
    };
    let (width, i3) = match next_field(v, i2, hi, c) {
        Some(f) => f,
        None => {
            return None;
        },
    };
    let height = match parse_i32_in(v, i3, hi) {
        Some(h) => h,
        None => {
            return None;
        },
    };
    Some(CaptureRegion { x_coordinate: x, y_coordinate: y, width, height })
}

/// Reads a geometry string such as `slurp` prints: `"x,y wxh"`, or four
/// numbers separated by spaces; surrounding white space is ignored. `None`
/// when the string has another shape or a number does not fit in an `i32`.
pub fn parse_geometry(g: &str) -> (r: Option<CaptureRegion>)
    ensures
        r == geometry_spec(g@),
{
    let v = chars_of(g);
    let (lo, hi) = trim_bounds(&v);
    let ghost t = v@.subrange(lo as int, hi as int);
    match find_char(&v, lo, hi, ',') {
        Some(k) => {
            assert(t[k - lo] == ',');
            assert(t.contains(','));
            geometry_in(&v, lo, hi, ',', ' ', 'x')
        },
        None => {
            assert(!t.contains(','));
            geometry_in(&v, lo, hi, ' ', ' ', ' ')
        },
    }
}

impl OutputPositioning {
    /// What an xdg-output event changes in the positioning.
    pub open spec fn updated(self, e: XdgOutputEvent) -> OutputPositioning {
        match e {
            XdgOutputEvent::LogicalPosition { x, y } => OutputPositioning { x, y, ..self },
            XdgOutputEvent::LogicalSize { width, height } => OutputPositioning {
                width,
                height,
                ..self
            },
            _ => self,
        }
    }

    /// Records the logical position or size an xdg-output event carries.
    pub fn apply(&mut self, e: XdgOutputEvent)
        ensures
            *final(self) == old(self).updated(e),
    {
        match e {
            XdgOutputEvent::LogicalPosition { x, y } => {
                self.x = x;
                self.y = y;
            },
            XdgOutputEvent::LogicalSize { width, height } => {
                self.width = width;
                self.height = height;
            },
            _ => {},
        }
    }
}

/// Whether an output and a capture region share an area of positive width
/// and height.
pub open spec fn region_meets_output(o: OutputPositioning, r: CaptureRegion) -> bool {
    let x1 = if o.x >= r.x_coordinate { o.x as int } else { r.x_coordinate as int };
    let y1 = if o.y >= r.y_coordinate { o.y as int } else { r.y_coordinate as int };
    let x2 = if o.x + o.width <= r.x_coordinate + r.width {
        o.x + o.width
    } else {
        r.x_coordinate + r.width
    };
    let y2 = if o.y + o.height <= r.y_coordinate + r.height {
        o.y + o.height
    } else {
        r.y_coordinate + r.height
    };
    x2 - x1 > 0 && y2 - y1 > 0
}

/// Whether an output and a capture region share an area of positive width
/// and height.
pub fn intersects(o: &OutputPositioning, r: &CaptureRegion) -> (b: bool)
    ensures
        b == region_meets_output(*o, *r),
{
    let ox = o.x as i64;
    let oy = o.y as i64;
    let rx = r.x_coordinate as i64;
    let ry = r.y_coordinate as i64;
    let x1 = if ox >= rx { ox } else { rx };
    let y1 = if oy >= ry { oy } else { ry };
    let oe = ox + o.width as i64;
    let re = rx + r.width as i64;
    let x2 = if oe <= re { oe } else { re };
    let ob = oy + o.height as i64;
    let rb = ry + r.height as i64;
    let y2 = if ob <= rb { ob } else { rb };
    x2 - x1 > 0 && y2 - y1 > 0
}

/// The indices, in order, of the outputs a capture region meets.
pub fn intersecting_outputs(outputs: &[OutputPositioning], region: &CaptureRegion) -> (r: Vec<usize>)
    ensures
        forall|k: int| 0 <= k < r@.len() ==> {
            &&& #[trigger] r@[k] < outputs@.len()
            &&& region_meets_output(outputs@[r@[k] as int], *region)
        },
        forall|k1: int, k2: int| 0 <= k1 < k2 < r@.len() ==> #[trigger] r@[k1] < #[trigger] r@[k2],
        forall|i: int|
            0 <= i < outputs@.len() && region_meets_output(#[trigger] outputs@[i], *region)
                ==> r@.contains(i as usize),
{
    let n = outputs.len();
    let mut r: Vec<usize> = Vec::new();
    let mut i: usize = 0;
    while i < n
        invariant
            n == outputs@.len(),
            i <= n,
            forall|k: int| 0 <= k < r@.len() ==> {
                &&& #[trigger] r@[k] < i
                &&& region_meets_output(outputs@[r@[k] as int], *region)
            },
            forall|k1: int, k2: int| 0 <= k1 < k2 < r@.len() ==> #[trigger] r@[k1] < #[trigger] r@[k2],
            forall|j: int|
                0 <= j < i && region_meets_output(#[trigger] outputs@[j], *region) ==> r@.contains(
                    j as usize,
                ),
        decreases n - i,
    {
        if intersects(&outputs[i], region) {
            let ghost before = r@;
            r.push(i);
            proof {
                assert(r@[before.len() as int] == i);
                assert forall|j: int|
                    0 <= j < i + 1 && region_meets_output(#[trigger] outputs@[j], *region) implies r@.contains(
                    j as usize,
                ) by {
                    if j < i {
                        let k = choose|k: int| 0 <= k < before.len() && before[k] == j as usize;
                        assert(r@[k] == j as usize);
                    } else {
                        assert(r@[before.len() as int] == j as usize);
                    }
                }
            }
        }
        i = i + 1;
    }
    r
}

/// The index of the first output named `name`.
pub fn find_output_by_name(names: &[String], name: &String) -> (r: Option<usize>)
    ensures
        match r {
            Some(i) => {
                &&& i < names@.len()
                &&& names@[i as int]@ == name@
                &&& forall|j: int| 0 <= j < i ==> (#[trigger] names@[j])@ != name@
            },
            None => forall|j: int| 0 <= j < names@.len() ==> (#[trigger] names@[j])@ != name@,
        },
{
    let n = names.len();
    let mut i: usize = 0;
    while i < n
        invariant
            n == names@.len(),
            i <= n,
            forall|j: int| 0 <= j < i ==> (#[trigger] names@[j])@ != name@,
        decreases n - i,
    {
        if names[i] == *name {
            return Some(i);
        }
        i = i + 1;
    }
    None
}

/// The lowercase form of a string, as `str::to_lowercase` gives it.
pub uninterp spec fn lowercase(s: Seq<char>) -> Seq<char>;

/// `str::to_lowercase`: Unicode's lowercase mapping applied to the string.
/// The result is named by `lowercase`; nothing more is claimed of it.
#[verifier::external_body]
fn to_lowercase(s: &str) -> (r: String)
    ensures
        r@ == lowercase(s@),
{
    s.to_lowercase()
}

/// `String::push`: appends one character.
#[verifier::external_body]
fn push_char(s: &mut String, c: char)
    ensures
        final(s)@ == old(s)@.push(c),
{
    s.push(c)
}

/// The encoding a lowercase extension names.
pub open spec fn encoding_named(ext: Seq<char>) -> Option<EncodingFormat> {
    if ext == "jpeg"@ || ext == "jpg"@ {
        Some(EncodingFormat::Jpg)
    } else if ext == "png"@ {
        Some(EncodingFormat::Png)
    } else if ext == "ppm"@ {
        Some(EncodingFormat::Ppm)
    } else {
        None
    }
}

/// The encoding a lowercase extension names: `jpeg` or `jpg`, `png`, `ppm`.
pub fn encoding_for(ext: &str) -> (r: Option<EncodingFormat>)
    ensures
        r == encoding_named(ext@),
{
    let e = ext.to_owned();
    let jpeg = "jpeg".to_owned();
    let jpg = "jpg".to_owned();
    let png = "png".to_owned();
    let ppm = "ppm".to_owned();
    if e == jpeg || e == jpg {
        Some(EncodingFormat::Jpg)
    } else if e == png {
        Some(EncodingFormat::Png)
    } else if e == ppm {
        Some(EncodingFormat::Ppm)
    } else {
        None
    }
}

/// The encoding an extension given on the command line names, once trimmed
/// and lowercased.
pub fn encoding_from_extension(ext: &str) -> (r: Option<EncodingFormat>)
    ensures
        r == encoding_named(lowercase(trim(ext@))),
{
    let v = chars_of(ext);
    let (lo, hi) = trim_bounds(&v);
    let mut t = String::new();
    let mut i = lo;
    while i < hi
        invariant
            lo <= i <= hi <= v@.len(),
            t@ == v@.subrange(lo as int, i as int),
        decreases hi - i,
    {
        push_char(&mut t, v[i]);
        assert(t@ =~= v@.subrange(lo as int, i as int + 1));
        i = i + 1;
    }
    let lower = to_lowercase(t.as_str());
    encoding_for(lower.as_str())
}

/// The suffix of the default file name for an encoding.
pub open spec fn file_suffix(f: EncodingFormat) -> Seq<char> {
    match f {
        EncodingFormat::Png => "-wayshot.png"@,
        EncodingFormat::Jpg => "-wayshot.jpg"@,
        EncodingFormat::Ppm => "-wayshot.ppm"@,
    }
}

/// The default name of the screenshot file: the seconds since the Unix
/// epoch, then `-wayshot` and the encoding's extension.
pub fn default_file_name(secs: u64, f: EncodingFormat) -> (r: String)
    ensures
        r@ == dec_nat(secs as nat) + file_suffix(f),
{
    let mut s = String::new();
    push_u64(&mut s, secs);
    match f {
        EncodingFormat::Png => s.append("-wayshot.png"),
        EncodingFormat::Jpg => s.append("-wayshot.jpg"),
        EncodingFormat::Ppm => s.append("-wayshot.ppm"),
    }
    s
}

/// The formats the command line tool captures in.
pub open spec fn tool_capture_format(f: ShmFormat) -> bool {
    f == ShmFormat::Argb8888 || f == ShmFormat::Xrgb8888 || f == ShmFormat::Xbgr8888
}

/// The first advertised format the command line tool captures in.
pub fn pick_frame_format(formats: &[FrameFormat]) -> (r: Option<FrameFormat>)
    ensures
        match r {
            Some(f) => exists|i: int|
                0 <= i < formats@.len() && formats@[i] == f && tool_capture_format(f.format)
                    && forall|j: int| 0 <= j < i ==> !tool_capture_format(#[trigger] formats@[j].format),
            None => forall|j: int|
                0 <= j < formats@.len() ==> !tool_capture_format(#[trigger] formats@[j].format),
        },
{
    let n = formats.len();
    let mut i: usize = 0;
    while i < n
        invariant
            n == formats@.len(),
            i <= n,
            forall|j: int| 0 <= j < i ==> !tool_capture_format(#[trigger] formats@[j].format),
        decreases n - i,
    {
        let f = formats[i];
        match f.format {
            ShmFormat::Argb8888 | ShmFormat::Xrgb8888 | ShmFormat::Xbgr8888 => {
                return Some(f);
            },
            _ => {},
        }
        i = i + 1;
    }
    None
}

/// A decimal digit's character is an ASCII digit of that value.
proof fn lemma_digit_char(d: nat)
    requires
        d < 10,
    ensures
        is_digit(digit_char(d)),
        digit_value(digit_char(d)) == d,
{
}

/// The decimal text of a natural number is a nonempty run of digits that
/// writes that number.
proof fn lemma_dec_nat_digits(n: nat)
    ensures
        dec_nat(n).len() > 0,
        all_digits(dec_nat(n)),
        digits_value(dec_nat(n)) == n,
    decreases n,
{
    if n < 10 {
        lemma_digit_char(n);
        assert(dec_nat(n).drop_last() =~= Seq::<char>::empty());
        assert(digits_value(Seq::<char>::empty()) == 0);
        assert(dec_nat(n).last() == digit_char(n));
    } else {
        lemma_dec_nat_digits(n / 10);
        lemma_digit_char(n % 10);
        let s = dec_nat(n);
        assert(s.drop_last() =~= dec_nat(n / 10));
        assert(s.last() == digit_char(n % 10));
        assert(digits_value(s) == digits_value(dec_nat(n / 10)) * 10 + digit_value(digit_char(n % 10)));
        assert(all_digits(s)) by {
            assert forall|i: int| 0 <= i < s.len() implies is_digit(#[trigger] s[i]) by {
                if i < s.len() - 1 {
                    assert(s[i] == dec_nat(n / 10)[i]);
                }
            }
        }
    }
}

/// Every character of the decimal text of an integer is a digit or a minus sign.
proof fn lemma_dec_int_chars(v: int)
    ensures
        dec_int(v).len() > 0,
        forall|i: int| 0 <= i < dec_int(v).len() ==> is_digit(#[trigger] dec_int(v)[i]) || dec_int(v)[i] == '-',
        !is_white_space(dec_int(v)[0]),
        !is_white_space(dec_int(v).last()),
{
    if v < 0 {
        lemma_dec_nat_digits((-v) as nat);
        let d = dec_nat((-v) as nat);
        assert forall|i: int| 0 <= i < dec_int(v).len() implies is_digit(#[trigger] dec_int(v)[i]) || dec_int(v)[i] == '-' by {
            if i > 0 {
                assert(dec_int(v)[i] == d[i - 1]);
            }
        }
        assert(dec_int(v).last() == d.last());
        assert(is_digit(d[d.len() - 1]));
    } else {
        lemma_dec_nat_digits(v as nat);
        assert(is_digit(dec_nat(v as nat)[0]));
        assert(is_digit(dec_nat(v as nat)[dec_nat(v as nat).len() - 1]));
    }
}

/// `parse_i32` reads back the decimal text of an `i32`.
proof fn lemma_parse_dec_int(v: i32)
    ensures
        parse_i32(dec_int(v as int)) == Some(v),
{
    if v < 0 {
        let d = dec_nat((-v) as nat);
        lemma_dec_nat_digits((-v) as nat);
        assert(dec_int(v as int).drop_first() =~= d);
    } else {
        let d = dec_nat(v as nat);
        lemma_dec_nat_digits(v as nat);
        assert(is_digit(d[0]));
    }
}

/// Splitting `a`, `c`, `b` at the first `c`, where `a` has none, gives `a` and `b`.
proof fn lemma_split_once_joined(s: Seq<char>, a: Seq<char>, c: char, b: Seq<char>)
    requires
        s == a + seq![c] + b,
        forall|i: int| 0 <= i < a.len() ==> a[i] != c,
    ensures
        split_once(s, c) == Some((a, b)),
{
    lemma_split_once_at(s, c, a.len() as int);
    assert(s.take(a.len() as int) =~= a);
    assert(s.skip(a.len() as int + 1) =~= b);
}

/// A text whose first and last characters are not white space is its own trim.
proof fn lemma_trim_unchanged(s: Seq<char>)
    requires
        s.len() > 0,
        !is_white_space(s[0]),
        !is_white_space(s.last()),
    ensures
        trim(s) == s,
{
    assert(trim_start(s) == s);
    assert(trim_end(s) == s);
}

/// The geometry string `slurp` prints for a region: `x,y wxh`.
pub open spec fn slurp_text(r: CaptureRegion) -> Seq<char> {
    dec_int(r.x_coordinate as int) + seq![','] + dec_int(r.y_coordinate as int) + seq![' '] + dec_int(
        r.width as int,
    ) + seq!['x'] + dec_int(r.height as int)
}

/// Reading the geometry string that `slurp` prints for a region gives the
/// region back: `parse_geometry` inverts the `x,y wxh` form.
pub proof fn lemma_slurp_geometry_round_trip(r: CaptureRegion)
    ensures
        geometry_spec(slurp_text(r)) == Some(r),
{
    let x = dec_int(r.x_coordinate as int);
    let y = dec_int(r.y_coordinate as int);
    let w = dec_int(r.width as int);
    let h = dec_int(r.height as int);
    lemma_dec_int_chars(r.x_coordinate as int);
    lemma_dec_int_chars(r.y_coordinate as int);
    lemma_dec_int_chars(r.width as int);
    lemma_dec_int_chars(r.height as int);
    lemma_parse_dec_int(r.x_coordinate);
    lemma_parse_dec_int(r.y_coordinate);
    lemma_parse_dec_int(r.width);
    lemma_parse_dec_int(r.height);
    let t = slurp_text(r);
    let rest2 = w + seq!['x'] + h;
    let rest1 = y + seq![' '] + rest2;
    assert(t =~= x + seq![','] + rest1);
    assert(t[0] == x[0]);
    assert(t.last() == h.last());
    lemma_trim_unchanged(t);
    assert(t[x.len() as int] == ',');
    assert(t.contains(','));
    lemma_split_once_joined(t, x, ',', rest1);
    lemma_split_once_joined(rest1, y, ' ', rest2);
    lemma_split_once_joined(rest2, w, 'x', h);
}

/// A region written as four numbers separated by single spaces: `x y w h`.
pub open spec fn spaced_text(r: CaptureRegion) -> Seq<char> {
    dec_int(r.x_coordinate as int) + seq![' '] + dec_int(r.y_coordinate as int) + seq![' '] + dec_int(
        r.width as int,
    ) + seq![' '] + dec_int(r.height as int)
}

/// Reading a region written as four space-separated numbers gives the
/// region back: `parse_geometry` inverts the `x y w h` form too.
pub proof fn lemma_spaced_geometry_round_trip(r: CaptureRegion)
    ensures
        geometry_spec(spaced_text(r)) == Some(r),
{
    let x = dec_int(r.x_coordinate as int);
    let y = dec_int(r.y_coordinate as int);
    let w = dec_int(r.width as int);
    let h = dec_int(r.height as int);
    lemma_dec_int_chars(r.x_coordinate as int);
    lemma_dec_int_chars(r.y_coordinate as int);
    lemma_dec_int_chars(r.width as int);
    lemma_dec_int_chars(r.height as int);
    lemma_parse_dec_int(r.x_coordinate);
    lemma_parse_dec_int(r.y_coordinate);
    lemma_parse_dec_int(r.width);
    lemma_parse_dec_int(r.height);
    let t = spaced_text(r);
    let rest2 = w + seq![' '] + h;
    let rest1 = y + seq![' '] + rest2;
    assert(t =~= x + seq![' '] + rest1);
    assert(t[0] == x[0]);
    assert(t.last() == h.last());
    lemma_trim_unchanged(t);
    assert(!t.contains(',')) by {
        assert forall|i: int| 0 <= i < t.len() implies t[i] != ',' by {
            let a = x.len() as int;
            let b = a + 1 + y.len();
            let c = b + 1 + w.len();
            if i < a {
                assert(t[i] == x[i]);
            } else if i == a || i == b || i == c {
            } else if i < b {
                assert(t[i] == y[i - a - 1]);
            } else if i < c {
                assert(t[i] == w[i - b - 1]);
            } else {
                assert(t[i] == h[i - c - 1]);
            }
        }
    }
    lemma_split_once_joined(t, x, ' ', rest1);
    lemma_split_once_joined(rest1, y, ' ', rest2);
    lemma_split_once_joined(rest2, w, ' ', h);
}

/// Whether every character of `s` is white space.
pub open spec fn all_white_space(s: Seq<char>) -> bool {
    forall|i: int| 0 <= i < s.len() ==> is_white_space(#[trigger] s[i])
}

/// Leading white space is dropped by `trim_start`.
proof fn lemma_trim_start_drops_prefix(p: Seq<char>, u: Seq<char>)
    requires
        all_white_space(p),
    ensures
        trim_start(p + u) == trim_start(u),
    decreases p.len(),
{
    if p.len() > 0 {
        assert((p + u)[0] == p[0]);
        assert((p + u).drop_first() =~= p.drop_first() + u);
        assert(all_white_space(p.drop_first())) by {
            assert forall|i: int| 0 <= i < p.drop_first().len() implies is_white_space(
                #[trigger] p.drop_first()[i],
            ) by {
                assert(p.drop_first()[i] == p[i + 1]);
            }
        }
        lemma_trim_start_drops_prefix(p.drop_first(), u);
    } else {
        assert(p + u =~= u);
    }
}

/// Trailing white space is dropped by `trim_end`.
proof fn lemma_trim_end_drops_suffix(u: Seq<char>, q: Seq<char>)
    requires
        all_white_space(q),
    ensures
        trim_end(u + q) == trim_end(u),
    decreases q.len(),
{
    if q.len() > 0 {
        assert((u + q).last() == q.last());
        assert(is_white_space(q[q.len() - 1]));
        assert((u + q).drop_last() =~= u + q.drop_last());
        assert(all_white_space(q.drop_last())) by {
            assert forall|i: int| 0 <= i < q.drop_last().len() implies is_white_space(
                #[trigger] q.drop_last()[i],
            ) by {
                assert(q.drop_last()[i] == q[i]);
            }
        }
        lemma_trim_end_drops_suffix(u, q.drop_last());
    } else {
        assert(u + q =~= u);
    }
}

/// White space around a text whose ends are not white space is what `trim`
/// removes, and all it removes.
proof fn lemma_trim_padded(p: Seq<char>, t: Seq<char>, q: Seq<char>)
    requires
        all_white_space(p),
        all_white_space(q),
        t.len() > 0,
        !is_white_space(t[0]),
        !is_white_space(t.last()),
    ensures
        trim(p + t + q) == t,
{
    assert(p + t + q =~= p + (t + q));
    lemma_trim_start_drops_prefix(p, t + q);
    assert((t + q)[0] == t[0]);
    assert(trim_start(t + q) == t + q);
    lemma_trim_end_drops_suffix(t, q);
    lemma_trim_unchanged(t);
}

/// A geometry string with white space around it reads as the string alone:
/// the region `slurp` prints, or four space-separated numbers, padded by any
/// white space on either side, reads back as that region.
pub proof fn lemma_padded_geometry_round_trip(r: CaptureRegion, p: Seq<char>, q: Seq<char>)
    requires
        all_white_space(p),
        all_white_space(q),
    ensures
        geometry_spec(p + slurp_text(r) + q) == Some(r),
        geometry_spec(p + spaced_text(r) + q) == Some(r),
{
    lemma_slurp_geometry_round_trip(r);
    lemma_spaced_geometry_round_trip(r);
    let x = dec_int(r.x_coordinate as int);
    let h = dec_int(r.height as int);
    lemma_dec_int_chars(r.x_coordinate as int);
    lemma_dec_int_chars(r.height as int);
    let a = slurp_text(r);
    let b = spaced_text(r);
    assert(a[0] == x[0]);
    assert(a.last() == h.last());
    assert(b[0] == x[0]);
    assert(b.last() == h.last());
    lemma_trim_padded(p, a, q);
    lemma_trim_padded(p, b, q);
    lemma_trim_unchanged(a);
    lemma_trim_unchanged(b);
}

/// An output and a capture region meet exactly when their rectangles, each
/// spanning `[x, x + width)` across and `[y, y + height)` down, share a point:
/// both have a positive width and height, each starts left of where the
/// other ends, and each starts above where the other ends.
pub proof fn lemma_meets_output_is_overlap(o: OutputPositioning, r: CaptureRegion)
    ensures
        region_meets_output(o, r) <==> {
            &&& 0 < o.width
            &&& 0 < r.width
            &&& 0 < o.height
            &&& 0 < r.height
            &&& o.x < r.x_coordinate + r.width
            &&& r.x_coordinate < o.x + o.width
            &&& o.y < r.y_coordinate + r.height
            &&& r.y_coordinate < o.y + o.height
        },
        region_meets_output(o, r) ==> {
            let px = if o.x >= r.x_coordinate { o.x as int } else { r.x_coordinate as int };
            let py = if o.y >= r.y_coordinate { o.y as int } else { r.y_coordinate as int };
            &&& o.x <= px < o.x + o.width
            &&& r.x_coordinate <= px < r.x_coordinate + r.width
            &&& o.y <= py < o.y + o.height
            &&& r.y_coordinate <= py < r.y_coordinate + r.height
        },
{
}

} // verus!
