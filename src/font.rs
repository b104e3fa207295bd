//! Font metrics: fixed-size bitmap fonts, Hershey stroke fonts, and the
//! descriptors that scale them to a point size.
use vstd::prelude::*;
use crate::time::div_toward_zero;

verus! {

/// Number of glyphs a font covers: codes 0x20 to 0x7f.
pub const NUMBER_OF_GLYPHS: usize = 96;

/// Font families known to the font manager.
#[derive(Debug, Clone, Copy, PartialEq, Eq, Structural)]
pub enum FontFamily {
    SystemUI,
    SansSerif,
    Serif,
    Cursive,
    FixedSystem,
    SmallFixed,
    Japanese,
}

/// Metrics that every font driver answers.
pub trait FontDriver {
    fn is_scalable(&self) -> bool;

    fn base_height(&self) -> isize;

    fn preferred_line_height(&self) -> isize;

    fn width_of(&self, character: char) -> isize;
}

/// A bitmap font whose glyphs all have one size; glyph rows are padded to
/// whole bytes.
pub struct FixedFontDriver<'a> {
    width: isize,
    height: isize,
    data: &'a [u8],
    leading: isize,
    line_height: isize,
    stride: usize,
}

/// Bytes of one glyph of a `width` by `height` bitmap font.
pub open spec fn glyph_stride(width: nat, height: nat) -> nat {
    ((width + 7) / 8) * height
}

impl<'a> FixedFontDriver<'a> {
    pub closed spec fn spec_width(&self) -> int {
        self.width as int
    }

    pub closed spec fn spec_height(&self) -> int {
        self.height as int
    }

    pub closed spec fn spec_line_height(&self) -> int {
        self.line_height as int
    }

    pub closed spec fn spec_leading(&self) -> int {
        self.leading as int
    }

    pub closed spec fn spec_stride(&self) -> nat {
        self.stride as nat
    }

    pub closed spec fn spec_data(&self) -> Seq<u8> {
        self.data@
    }

    pub closed spec fn wf(&self) -> bool {
        &&& self.height >= 1
        &&& self.data@.len() >= NUMBER_OF_GLYPHS * self.stride
    }

    /// A font of `width` by `height` pixels whose glyphs, one for each code
    /// 0x20 to 0x7f, lie one after another in `data`. Lines are a quarter
    /// taller than the glyphs, with the extra space split above and below.
    pub fn new(width: usize, height: usize, data: &'a [u8]) -> (r: FixedFontDriver<'a>)
        requires
            1 <= height,
            width <= 0x1_0000,
            height <= 0x1_0000,
            data@.len() >= NUMBER_OF_GLYPHS * glyph_stride(width as nat, height as nat),
        ensures
            r.wf(),
            r.spec_width() == width,
            r.spec_height() == height,
            r.spec_line_height() == height * 5 / 4,
            r.spec_leading() == (height * 5 / 4 - height) / 2,
            r.spec_stride() == glyph_stride(width as nat, height as nat),
            r.spec_data() == data@,
    {
        let w = width as isize;
        let h = height as isize;
        let line_height = h * 5 / 4;
        let leading = (line_height - h) / 2;
        proof {
            assert(((width + 7) / 8) * height <= 0x2001 * 0x1_0000) by (nonlinear_arith)
                requires
                    (width + 7) / 8 <= 0x2001,
                    height <= 0x1_0000,
            ;
        }
        let stride = ((width + 7) / 8) * height;
        FixedFontDriver { width: w, height: h, data, leading, line_height, stride }
    }

    pub fn width(&self) -> (r: isize)
        ensures
            r == self.spec_width(),
    {
        self.width
    }

    pub fn line_height(&self) -> (r: isize)
        ensures
            r == self.spec_line_height(),
    {
        self.line_height
    }

    /// Space between the top of a line and the top of its glyphs.
    pub fn leading(&self) -> (r: isize)
        ensures
            r == self.spec_leading(),
    {
        self.leading
    }

    /// Rectangle, as left, top, width and height, that a glyph drawn at
    /// (`x`, `y`) covers: the glyph box moved down by the leading.
    pub fn glyph_rect(&self, x: isize, y: isize) -> (r: (isize, isize, isize, isize))
        requires
            isize::MIN <= y + self.spec_leading() <= isize::MAX,
        ensures
            r == (x, (y + self.spec_leading()) as isize, self.spec_width() as isize, self.spec_height() as isize),
    {
        (x, y + self.leading, self.width, self.height)
    }

    /// Bitmap of `character`; codes 0x21 to 0x7f have one, the rest
    /// (the space included) none.
    pub fn glyph_for(&self, character: char) -> (r: Option<&[u8]>)
        requires
            self.wf(),
        ensures
            r is Some <==> 0x20 < character as u32 && (character as u32) < 0x80,
            r matches Some(g) ==> g@ == self.spec_data().subrange(
                self.spec_stride() * (character as u32 - 0x20),
                self.spec_stride() * (character as u32 - 0x20) + self.spec_stride(),
            ),
    {
        let c = character as u32;
        if c > 0x20 && c < 0x80 {
            let i = (c - 0x20) as usize;
            let len = self.data.len();
            proof {
                assert(self.stride * i + self.stride <= NUMBER_OF_GLYPHS * self.stride) by (nonlinear_arith)
                    requires
                        i < NUMBER_OF_GLYPHS,
                ;
                assert(self.stride * i <= NUMBER_OF_GLYPHS * self.stride) by (nonlinear_arith)
                    requires
                        i < NUMBER_OF_GLYPHS,
                ;
            }
            let base = self.stride * i;
            Some(&self.data[base..base + self.stride])
        } else {
            None
        }
    }
}

impl<'a> FontDriver for FixedFontDriver<'a> {
    fn is_scalable(&self) -> (r: bool)
        ensures
            !r,
    {
        false
    }

    fn base_height(&self) -> (r: isize)
        ensures
            r == self.spec_height(),
    {
        self.height
    }

    fn preferred_line_height(&self) -> (r: isize)
        ensures
            r == self.spec_line_height(),
    {
        self.line_height
    }

    fn width_of(&self, character: char) -> (r: isize)
        ensures
            r == self.spec_width(),
    {
        let _ = character;
        self.width
    }
}

/// End of the record that starts at `start` in Hershey font data: the first
/// position at or after it whose byte is a control code (below 0x20), or
/// the end of the data.
pub open spec fn record_end(data: Seq<u8>, start: int) -> int
    decreases data.len() - start,
{
    if start < 0 || start >= data.len() {
        data.len() as int
    } else if data[start] < 0x20 {
        start
    } else {
        record_end(data, start + 1)
    }
}

/// Start of the `k`-th record: each record ends with one control code.
pub open spec fn record_start(data: Seq<u8>, k: nat) -> int
    decreases k,
{
    if k == 0 {
        0
    } else {
        record_end(data, record_start(data, (k - 1) as nat)) + 1
    }
}

/// Hershey font data as the parser takes it: the last record is
/// terminated, and each of the glyph records present holds at least the
/// 10-byte header (number, pair count, left and right edge).
pub open spec fn hershey_data_ok(data: Seq<u8>) -> bool {
    &&& data.len() > 0 ==> data[data.len() - 1] < 0x20
    &&& forall|k: nat|
        k < NUMBER_OF_GLYPHS && record_start(data, k) < data.len() ==> record_end(
            data,
            #[trigger] record_start(data, k),
        ) - record_start(data, k) >= 10
}

/// What the glyph of the record starting at `base` measures: its right edge
/// less its left edge.
pub open spec fn glyph_width(data: Seq<u8>, base: int) -> int {
    data[base + 9] as int - data[base + 8] as int
}

proof fn lemma_record_end_bounds(data: Seq<u8>, start: int)
    requires
        0 <= start,
    ensures
        start <= record_end(data, start) || start > data.len(),
        record_end(data, start) <= data.len(),
        start < data.len() && data[data.len() - 1] < 0x20 ==> record_end(data, start) < data.len(),
    decreases data.len() - start,
{
    if start < data.len() && data[start] >= 0x20 {
        lemma_record_end_bounds(data, start + 1);
    }
}

proof fn lemma_record_start_grows(data: Seq<u8>, j: nat, k: nat)
    requires
        j <= k,
    ensures
        0 <= record_start(data, j) <= record_start(data, k),
    decreases k,
{
    lemma_record_start_bounds(data, k);
    if j < k {
        lemma_record_start_grows(data, j, (k - 1) as nat);
        lemma_record_start_bounds(data, (k - 1) as nat);
        lemma_record_end_bounds(data, record_start(data, (k - 1) as nat));
    }
}

proof fn lemma_record_start_bounds(data: Seq<u8>, k: nat)
    ensures
        0 <= record_start(data, k) <= data.len() + 1,
    decreases k,
{
    if k > 0 {
        lemma_record_start_bounds(data, (k - 1) as nat);
        lemma_record_end_bounds(data, record_start(data, (k - 1) as nat));
    }
}

/// A stroke font in the Hershey format, scalable to any height.
pub struct HersheyFont<'a> {
    data: &'a [u8],
    line_height: isize,
    glyph_info: Vec<(usize, usize, isize)>,
}

impl<'a> HersheyFont<'a> {
    /// Height of the design grid, in points.
    pub const POINT: isize = 32;

    /// Space below the baseline, in points.
    pub const DESCENT: isize = 2;

    pub closed spec fn spec_data(&self) -> Seq<u8> {
        self.data@
    }

    pub closed spec fn spec_line_height(&self) -> int {
        self.line_height as int
    }

    /// Where each glyph's record starts and ends, and its width, by code
    /// from 0x20 on.
    pub closed spec fn spec_glyphs(&self) -> Seq<(usize, usize, isize)> {
        self.glyph_info@
    }

    /// Finds the record of `character` by walking the records from the
    /// start: its first position and the position of its terminator. None
    /// for codes outside 0x20 to 0x7f and when the data ends before it.
    pub fn search_for_glyph(&self, character: char) -> (r: Option<(usize, usize)>)
        requires
            hershey_data_ok(self.spec_data()),
        ensures
            ({
                let c = character as u32;
                let k = (c - 0x20) as nat;
                if 0x20 <= c < 0x80 && record_start(self.spec_data(), k) < self.spec_data().len() {
                    r == Some(
                        (
                            record_start(self.spec_data(), k) as usize,
                            record_end(self.spec_data(), record_start(self.spec_data(), k)) as usize,
                        ),
                    )
                } else {
                    r is None
                }
            }),
    {
        let c = character as u32;
        if c >= 0x20 && c < 0x80 {
            Self::search_record(self.data, (c - 0x20) as usize)
        } else {
            None
        }
    }

    /// The `k`-th record of `data`, if the data reaches it.
    fn search_record(data: &[u8], k: usize) -> (r: Option<(usize, usize)>)
        requires
            hershey_data_ok(data@),
            k < NUMBER_OF_GLYPHS,
        ensures
            if record_start(data@, k as nat) < data@.len() {
                r == Some(
                    (
                        record_start(data@, k as nat) as usize,
                        record_end(data@, record_start(data@, k as nat)) as usize,
                    ),
                )
            } else {
                r is None
            },
    {
        let ghost d = data@;
        {
            let len = data.len();
            let mut cursor: usize = 0;
            let mut current: usize = 0;
            while current < NUMBER_OF_GLYPHS
                invariant
                    d == data@,
                    len == d.len(),
                    hershey_data_ok(d),
                    k < NUMBER_OF_GLYPHS,
                    current <= k,
                    cursor == record_start(d, current as nat),
                decreases NUMBER_OF_GLYPHS - current,
            {
                if len <= cursor {
                    proof {
                        lemma_record_start_grows(d, current as nat, k as nat);
                    }
                    return None;
                }
                let base = cursor;
                proof {
                    lemma_record_end_bounds(d, cursor as int);
                }
                while cursor < len && data[cursor] >= 0x20
                    invariant
                        d == data@,
                        len == d.len(),
                        base <= cursor <= len,
                        base < len,
                        record_end(d, base as int) == record_end(d, cursor as int),
                    decreases len - cursor,
                {
                    cursor = cursor + 1;
                }
                proof {
                    lemma_record_end_bounds(d, base as int);
                    assert(record_end(d, cursor as int) == cursor);
                }
                if current == k {
                    return Some((base, cursor));
                }
                assert(record_start(d, (current + 1) as nat) == cursor + 1);
                cursor = cursor + 1;
                current = current + 1;
            }
            None
        }
    }

    pub closed spec fn wf(&self) -> bool {
        hershey_data_ok(self.data@) && glyph_table(self.data@, self.glyph_info@)
    }

    /// Reads the glyph table of `font_data`: for each code from 0x20 on,
    /// until the data runs out, where the glyph's record lies and how wide
    /// the glyph is. Lines are the design grid plus the descent and
    /// `extra_height`.
    pub fn new(extra_height: isize, font_data: &'a [u8]) -> (r: HersheyFont<'a>)
        requires
            hershey_data_ok(font_data@),
            extra_height <= isize::MAX - 34,
        ensures
            r.wf(),
            r.spec_data() == font_data@,
            r.spec_line_height() == 34 + extra_height,
            glyph_table(font_data@, r.spec_glyphs()),
    {
        let ghost d = font_data@;
        let descent = Self::DESCENT + extra_height;
        let mut font = HersheyFont {
            data: font_data,
            line_height: Self::POINT + descent,
            glyph_info: Vec::with_capacity(NUMBER_OF_GLYPHS),
        };
        let mut k: usize = 0;
        while k < NUMBER_OF_GLYPHS
            invariant_except_break
                font.glyph_info@.len() == k,
            invariant
                font.data@ == d,
                font_data@ == d,
                font.line_height == 34 + extra_height,
                hershey_data_ok(d),
                k <= NUMBER_OF_GLYPHS,
                font.glyph_info@.len() <= k,
                forall|j: int| 0 <= j < font.glyph_info@.len() ==> #[trigger] glyph_entry(d, j as nat, font.glyph_info@[j]),
            ensures
                glyph_table(d, font.glyph_info@),
            decreases NUMBER_OF_GLYPHS - k,
        {
            match Self::search_record(font_data, k) {
                None => {
                    break;
                },
                Some((base, last)) => {
                    let ghost g0 = font.glyph_info@;
                    proof {
                        lemma_record_start_bounds(d, k as nat);
                        lemma_record_end_bounds(d, record_start(d, k as nat));
                        assert(record_end(d, record_start(d, k as nat)) - record_start(d, k as nat) >= 10);
                    }
                    let len = font_data.len();
                    assert(base + 9 < len);
                    let w1 = font_data[base + 8] as isize;
                    let w2 = font_data[base + 9] as isize;
                    font.glyph_info.push((base, last, w2 - w1));
                    assert forall|j: int| 0 <= j < font.glyph_info@.len() implies #[trigger] glyph_entry(
                        d,
                        j as nat,
                        font.glyph_info@[j],
                    ) by {
                        if j < k {
                            assert(font.glyph_info@[j] == g0[j]);
                        }
                    }
                },
            }
            k = k + 1;
        }
        font
    }

    /// Every glyph width lies between -255 and 255.
    pub proof fn lemma_width_bounded(&self, c: u32)
        requires
            self.wf(),
        ensures
            -0xff <= hershey_width(self.spec_glyphs(), c) <= 0xff,
    {
        if 0x20 <= c < 0x80 && c - 0x20 < self.spec_glyphs().len() {
            let k = c - 0x20;
            assert(glyph_entry(self.data@, k as nat, self.glyph_info@[k]));
        }
    }

    /// The lines that the glyph record `data` draws at `height`, in the
    /// coordinates of the scratch bitmap the glyph is drawn in.
    pub fn stroke_segments(data: &[u8], height: isize) -> (r: Vec<Segment>)
        requires
            strokes_fit(data@),
            i32::MIN <= height <= i32::MAX,
        ensures
            segments_view(r@) == glyph_strokes(data@, height as int),
    {
        let mut segments: Vec<Segment> = Vec::new();
        if data.len() < 12 {
            proof {
                assert(segments_view(segments@) =~= Seq::empty());
            }
            return segments;
        }
        let n_pairs = (data[6] & 0x0f) as usize * 10 + (data[7] & 0x0f) as usize;
        if n_pairs == 0 {
            proof {
                assert(segments_view(segments@) =~= Seq::empty());
            }
            return segments;
        }
        let ghost d = data@;
        let ghost n = n_pairs - 1;
        let center = STROKE_BUFFER_SIZE as i64 / 2 - 1;
        let mut pen: Option<(i64, i64)> = None;
        let mut i: usize = 0;
        while i < n_pairs - 1
            invariant
                d == data@,
                n_pairs == pair_count(d),
                n == n_pairs - 1,
                n_pairs >= 1,
                8 + 2 * n_pairs <= d.len(),
                i <= n,
                i32::MIN <= height <= i32::MAX,
                center == STROKE_BUFFER_SIZE / 2 - 1,
                segments_view(segments@) + strokes_from(d, height as int, i as int, n, pen_view(pen))
                    == glyph_strokes(d, height as int),
            decreases n - i,
        {
            let c1 = data[10 + 2 * i];
            let c2 = data[11 + 2 * i];
            let ghost before = segments@;
            if c1 == 0x20 && c2 == 0x52 {
                pen = None;
            } else {
                proof {
                    let e = c1 - 0x52;
                    assert(-173 * 2 * 0x8000_0000 <= e * 2 * height <= 173 * 2 * 0x8000_0000) by (nonlinear_arith)
                        requires
                            -173 <= e <= 173,
                            i32::MIN <= height <= i32::MAX,
                    ;
                    let e = c2 - 0x52;
                    assert(-173 * 2 * 0x8000_0000 <= e * 2 * height <= 173 * 2 * 0x8000_0000) by (nonlinear_arith)
                        requires
                            -173 <= e <= 173,
                            i32::MIN <= height <= i32::MAX,
                    ;
                }
                let h = height as i64;
                let d1 = c1 as i64 - 0x52;
                let d2 = c2 as i64 - 0x52;
                let p = (center + d1 * 2 * h / 32, center + d2 * 2 * h / 32);
                match pen {
                    Some(q) => {
                        segments.push((q, p));
                        proof {
                            assert(segments_view(segments@) =~= segments_view(before) + seq![
                                (((q.0) as int, (q.1) as int), ((p.0) as int, (p.1) as int)),
                            ]);
                        }
                    },
                    None => {},
                }
                pen = Some(p);
            }
            proof {
                assert(segments_view(segments@) + strokes_from(d, height as int, i + 1, n, pen_view(pen))
                    =~= glyph_strokes(d, height as int));
            }
            i = i + 1;
        }
        proof {
            assert(segments_view(segments@) + Seq::empty() =~= segments_view(segments@));
        }
        segments
    }

    /// Where the scratch bitmap of the glyph record `data` at `height` goes,
    /// relative to the drawing origin: the origin less this offset.
    pub fn glyph_offset(data: &[u8], height: isize) -> (r: (i64, i64))
        requires
            data@.len() > 8,
            i32::MIN <= height <= i32::MAX,
        ensures
            r.0 == STROKE_BUFFER_SIZE / 4 + div_toward_zero((data@[8] - 0x52) * height, 32) - 1,
            r.1 == div_toward_zero(STROKE_BUFFER_SIZE / 2 - height, 2),
    {
        let height = height as i64;
        let left = data[8] as i64 - 0x52;
        proof {
            assert(-173 * 0x8000_0000 <= left * height <= 173 * 0x8000_0000) by (nonlinear_arith)
                requires
                    -173 <= left <= 173,
                    i32::MIN <= height <= i32::MAX,
            ;
        }
        let offset_x = (STROKE_BUFFER_SIZE as i64 / 4) + left * height / Self::POINT as i64 - 1;
        let offset_y = (STROKE_BUFFER_SIZE as i64 / 2 - height) / 2;
        (offset_x, offset_y)
    }

    /// The record bounds and width of the glyph of `character`, if the font
    /// has one.
    pub fn glyph_for(&self, character: char) -> (r: Option<(usize, usize, isize)>)
        ensures
            ({
                let c = character as u32;
                if 0x20 <= c < 0x80 && c - 0x20 < self.spec_glyphs().len() {
                    r == Some(self.spec_glyphs()[c - 0x20])
                } else {
                    r is None
                }
            }),
    {
        let c = character as u32;
        if c >= 0x20 {
            let i = (c - 0x20) as usize;
            if i < NUMBER_OF_GLYPHS && i < self.glyph_info.len() {
                return Some(self.glyph_info[i]);
            }
        }
        None
    }
}

/// Side of the square scratch bitmap in which a stroke glyph is drawn.
pub const STROKE_BUFFER_SIZE: isize = 96;

/// A line from one point to another, in scratch-bitmap coordinates.
pub type Segment = ((i64, i64), (i64, i64));

/// Number of coordinate pairs that the header of a glyph record announces:
/// two decimal digits at positions 6 and 7.
pub open spec fn pair_count(data: Seq<u8>) -> nat {
    ((data[6] & 0x0f) * 10 + (data[7] & 0x0f)) as nat
}

/// Whether the coordinate pairs that a glyph record announces lie within it.
pub open spec fn strokes_fit(data: Seq<u8>) -> bool {
    data.len() < 12 || 8 + 2 * pair_count(data) <= data.len()
}

/// A stroke coordinate `c`, relative to the grid's middle letter 'R',
/// scaled from the 32-point grid to `height` at twice the size.
pub open spec fn stroke_coord(c: u8, height: int) -> int {
    div_toward_zero((c - 0x52) * 2 * height, 32)
}

/// The `i`-th vertex of a glyph record, around the scratch bitmap's centre.
pub open spec fn stroke_vertex(data: Seq<u8>, i: int, height: int) -> (int, int) {
    (
        STROKE_BUFFER_SIZE / 2 - 1 + stroke_coord(data[10 + 2 * i], height),
        STROKE_BUFFER_SIZE / 2 - 1 + stroke_coord(data[11 + 2 * i], height),
    )
}

/// Whether the `i`-th pair of a glyph record lifts the pen (" R").
pub open spec fn pen_up(data: Seq<u8>, i: int) -> bool {
    data[10 + 2 * i] == 0x20 && data[11 + 2 * i] == 0x52
}

/// The lines that pairs `i` to `n - 1` draw, the pen resting at `pen`:
/// each vertex is joined to the one before it unless the pen was lifted.
pub open spec fn strokes_from(data: Seq<u8>, height: int, i: int, n: int, pen: Option<(int, int)>) -> Seq<
    ((int, int), (int, int)),
>
    decreases n - i,
{
    if i >= n {
        Seq::empty()
    } else if pen_up(data, i) {
        strokes_from(data, height, i + 1, n, None)
    } else {
        let p = stroke_vertex(data, i, height);
        match pen {
            Some(q) => seq![(q, p)] + strokes_from(data, height, i + 1, n, Some(p)),
            None => strokes_from(data, height, i + 1, n, Some(p)),
        }
    }
}

/// The lines of the glyph record `data` at `height`: all pairs but the
/// last announced one; none for a record shorter than 12 bytes.
pub open spec fn glyph_strokes(data: Seq<u8>, height: int) -> Seq<((int, int), (int, int))> {
    if data.len() < 12 || pair_count(data) == 0 {
        Seq::empty()
    } else {
        strokes_from(data, height, 0, pair_count(data) - 1, None)
    }
}

/// The view of a pen position as integers.
pub open spec fn pen_view(pen: Option<(i64, i64)>) -> Option<(int, int)> {
    match pen {
        Some(p) => Some((p.0 as int, p.1 as int)),
        None => None,
    }
}

/// The view of drawn lines as integer pairs.
pub open spec fn segments_view(v: Seq<Segment>) -> Seq<((int, int), (int, int))> {
    v.map_values(|s: Segment| (((s.0).0 as int, (s.0).1 as int), ((s.1).0 as int, (s.1).1 as int)))
}

/// Whether `e` is the table entry of the `k`-th record of `data`.
pub open spec fn glyph_entry(data: Seq<u8>, k: nat, e: (usize, usize, isize)) -> bool {
    let base = record_start(data, k);
    &&& base < data.len()
    &&& e == (base as usize, record_end(data, base) as usize, glyph_width(data, base) as isize)
}

/// Whether `glyphs` is the glyph table of `data`: one entry for each record
/// from the first on, stopping at the end of the data or after 96.
pub open spec fn glyph_table(data: Seq<u8>, glyphs: Seq<(usize, usize, isize)>) -> bool {
    &&& glyphs.len() <= NUMBER_OF_GLYPHS
    &&& forall|k: int| 0 <= k < glyphs.len() ==> #[trigger] glyph_entry(data, k as nat, glyphs[k])
    &&& glyphs.len() < NUMBER_OF_GLYPHS ==> record_start(data, glyphs.len()) >= data.len()
}

impl<'a> FontDriver for HersheyFont<'a> {
    fn is_scalable(&self) -> (r: bool)
        ensures
            r,
    {
        true
    }

    fn base_height(&self) -> (r: isize)
        ensures
            r == 32,
    {
        Self::POINT
    }

    fn preferred_line_height(&self) -> (r: isize)
        ensures
            r == self.spec_line_height(),
    {
        self.line_height
    }

    /// Width of the glyph of `character`; zero when the font has none.
    fn width_of(&self, character: char) -> (r: isize)
        ensures
            ({
                let c = character as u32;
                if 0x20 <= c < 0x80 && c - 0x20 < self.spec_glyphs().len() {
                    r == self.spec_glyphs()[c - 0x20].2
                } else {
                    r == 0
                }
            }),
    {
        match self.glyph_for(character) {
            Some(info) => info.2,
            None => 0,
        }
    }
}

/// Width that a Hershey glyph table gives the code `c`; zero when it has
/// no glyph for it.
pub open spec fn hershey_width(glyphs: Seq<(usize, usize, isize)>, c: u32) -> int {
    if 0x20 <= c < 0x80 && c - 0x20 < glyphs.len() {
        glyphs[c - 0x20].2 as int
    } else {
        0
    }
}

/// A font of either kind.
pub enum Font<'a> {
    Fixed(FixedFontDriver<'a>),
    Hershey(HersheyFont<'a>),
}

impl<'a> Font<'a> {
    pub open spec fn spec_scalable(&self) -> bool {
        self is Hershey
    }

    pub open spec fn spec_base_height(&self) -> int {
        match self {
            Font::Fixed(f) => f.spec_height(),
            Font::Hershey(_) => 32,
        }
    }

    pub open spec fn spec_line_height(&self) -> int {
        match self {
            Font::Fixed(f) => f.spec_line_height(),
            Font::Hershey(h) => h.spec_line_height(),
        }
    }

    pub open spec fn spec_width_of(&self, c: char) -> int {
        match self {
            Font::Fixed(f) => f.spec_width(),
            Font::Hershey(h) => hershey_width(h.spec_glyphs(), c as u32),
        }
    }

    /// Sizes small enough that scaling them to a point size of up to 4096
    /// stays within 32 bits.
    pub open spec fn wf(&self) -> bool {
        match self {
            Font::Fixed(f) => f.wf() && 1 <= f.spec_height() <= 0x1_0000 && 0 <= f.spec_width()
                <= 0x1_0000 && f.spec_line_height() == f.spec_height() * 5 / 4,
            Font::Hershey(h) => h.wf() && 0 <= h.spec_line_height() <= 0x1_0000,
        }
    }
}

impl<'a> FontDriver for Font<'a> {
    fn is_scalable(&self) -> (r: bool)
        ensures
            r == self.spec_scalable(),
    {
        match self {
            Font::Fixed(f) => f.is_scalable(),
            Font::Hershey(h) => h.is_scalable(),
        }
    }

    fn base_height(&self) -> (r: isize)
        ensures
            r == self.spec_base_height(),
    {
        match self {
            Font::Fixed(f) => f.base_height(),
            Font::Hershey(h) => h.base_height(),
        }
    }

    fn preferred_line_height(&self) -> (r: isize)
        ensures
            r == self.spec_line_height(),
    {
        match self {
            Font::Fixed(f) => f.preferred_line_height(),
            Font::Hershey(h) => h.preferred_line_height(),
        }
    }

    fn width_of(&self, character: char) -> (r: isize)
        ensures
            r == self.spec_width_of(character),
    {
        match self {
            Font::Fixed(f) => f.width_of(character),
            Font::Hershey(h) => h.width_of(character),
        }
    }
}

/// A font at a point size, with the line height that goes with it.
pub struct FontDescriptor<'a> {
    driver: &'a Font<'a>,
    point: i32,
    line_height: i32,
}

/// The point size and line height that a descriptor of `font` asked at
/// `point` takes: a scalable font takes the size asked and scales its line
/// height to it, keeping the low 32 bits; a fixed font keeps its own.
pub open spec fn descriptor_metrics(font: Font, point: int) -> (int, int) {
    if font.spec_scalable() {
        (point, (div_toward_zero(font.spec_line_height() * point, font.spec_base_height()) as i32) as int)
    } else {
        (font.spec_base_height(), font.spec_line_height())
    }
}

impl<'a> FontDescriptor<'a> {
    #[verifier::type_invariant]
    spec fn inv(self) -> bool {
        &&& self.driver.wf()
        &&& (self.point as int, self.line_height as int) == descriptor_metrics(*self.driver, self.point as int)
    }

    pub closed spec fn spec_font(&self) -> Font<'a> {
        *self.driver
    }

    pub closed spec fn spec_point(&self) -> int {
        self.point as int
    }

    pub closed spec fn spec_line_height(&self) -> int {
        self.line_height as int
    }

    /// The descriptor of `family` at `point`; none when the manager has no
    /// font of that family.
    pub fn new(manager: &'a FontManager<'a>, family: FontFamily, point: isize) -> (r: Option<FontDescriptor<'a>>)
        requires
            manager.wf(),
            i32::MIN <= point <= i32::MAX,
        ensures
            r is Some <==> manager.font_of(family) is Some,
            r matches Some(d) ==> manager.font_of(family) == Some(d.spec_font()) && (
            d.spec_point(),
            d.spec_line_height(),
            ) == descriptor_metrics(d.spec_font(), point as int),
    {
        match manager.driver_for(family) {
            Some(driver) => {
                let bh = driver.base_height();
                let lh = driver.preferred_line_height();
                if driver.is_scalable() {
                    proof {
                        assert(-0x1_0000 * 0x8000_0000 <= lh * point <= 0x1_0000 * 0x8000_0000) by (nonlinear_arith)
                            requires
                                0 <= lh <= 0x1_0000,
                                i32::MIN <= point <= i32::MAX,
                        ;
                    }
                    let line_height = lh as i64 * point as i64 / bh as i64;
                    Some(FontDescriptor { driver, point: point as i32, line_height: line_height as i32 })
                } else {
                    Some(FontDescriptor { driver, point: bh as i32, line_height: lh as i32 })
                }
            },
            None => None,
        }
    }

    pub fn point(&self) -> (r: isize)
        ensures
            r == self.spec_point(),
    {
        self.point as isize
    }

    pub fn line_height(&self) -> (r: isize)
        ensures
            r == self.spec_line_height(),
    {
        self.line_height as isize
    }

    pub fn is_scalable(&self) -> (r: bool)
        ensures
            r == self.spec_font().spec_scalable(),
    {
        self.driver.is_scalable()
    }

    /// Width of `character` at this point size: the font's own width at its
    /// base height, else that width scaled to the point size.
    pub fn width_of(&self, character: char) -> (r: isize)
        ensures
            r == if self.spec_point() == self.spec_font().spec_base_height() {
                self.spec_font().spec_width_of(character)
            } else {
                div_toward_zero(
                    self.spec_font().spec_width_of(character) * self.spec_point(),
                    self.spec_font().spec_base_height(),
                ) as isize as int
            },
    {
        proof {
            use_type_invariant(self);
        }
        let point = self.point();
        let bh = self.driver.base_height();
        let w = self.driver.width_of(character);
        if point == bh {
            w
        } else {
            proof {
                assert(self.driver is Hershey);
                if let Font::Hershey(h) = self.driver {
                    h.lemma_width_bounded(character as u32);
                }
                assert(-0xff <= w <= 0xff);
                assert(-0xff * 0x8000_0000 <= w * point <= 0xff * 0x8000_0000) by (nonlinear_arith)
                    requires
                        -0xff <= w <= 0xff,
                        i32::MIN <= point <= i32::MAX,
                ;
            }
            (w as i64 * point as i64 / bh as i64) as isize
        }
    }
}

/// Position of `family` in the font manager's table.
pub open spec fn family_slot(family: FontFamily) -> int {
    match family {
        FontFamily::SystemUI => 0,
        FontFamily::SansSerif => 1,
        FontFamily::Serif => 2,
        FontFamily::Cursive => 3,
        FontFamily::FixedSystem => 4,
        FontFamily::SmallFixed => 5,
        FontFamily::Japanese => 6,
    }
}

fn slot_of(family: FontFamily) -> (r: usize)
    ensures
        r == family_slot(family),
{
    match family {
        FontFamily::SystemUI => 0,
        FontFamily::SansSerif => 1,
        FontFamily::Serif => 2,
        FontFamily::Cursive => 3,
        FontFamily::FixedSystem => 4,
        FontFamily::SmallFixed => 5,
        FontFamily::Japanese => 6,
    }
}

/// Number of font families.
pub const NUMBER_OF_FAMILIES: usize = 7;

/// The fonts of the system, by family.
pub struct FontManager<'a> {
    fonts: Vec<Option<Font<'a>>>,
}

impl<'a> FontManager<'a> {
    /// The font of `family`, if there is one.
    pub closed spec fn font_of(&self, family: FontFamily) -> Option<Font<'a>> {
        if self.fonts@.len() == NUMBER_OF_FAMILIES {
            self.fonts@[family_slot(family)]
        } else {
            None
        }
    }

    pub closed spec fn wf(&self) -> bool {
        forall|i: int|
            0 <= i < self.fonts@.len() ==> (#[trigger] self.fonts@[i] matches Some(f) ==> f.wf())
    }

    /// A manager without fonts.
    pub fn new() -> (r: FontManager<'a>)
        ensures
            r.wf(),
            forall|f: FontFamily| r.font_of(f) is None,
    {
        FontManager { fonts: Vec::new() }
    }

    /// Loads the system fonts: the 8 by 16 system font and the 6 by 8 small
    /// font from their bitmaps, and the Hershey fonts for the user
    /// interface (`futural`), cursive (`cursive`, with 4 points of extra
    /// descent), sans-serif (`futuram`) and serif (`timesr`) families.
    pub fn init(
        &mut self,
        system: &'a [u8],
        small: &'a [u8],
        futural: &'a [u8],
        cursive: &'a [u8],
        futuram: &'a [u8],
        timesr: &'a [u8],
    )
        requires
            system@.len() >= NUMBER_OF_GLYPHS * glyph_stride(8, 16),
            small@.len() >= NUMBER_OF_GLYPHS * glyph_stride(6, 8),
            hershey_data_ok(futural@),
            hershey_data_ok(cursive@),
            hershey_data_ok(futuram@),
            hershey_data_ok(timesr@),
        ensures
            final(self).wf(),
            final(self).font_of(FontFamily::FixedSystem) matches Some(Font::Fixed(f)) && f.spec_width()
                == 8 && f.spec_height() == 16 && f.spec_data() == system@,
            final(self).font_of(FontFamily::SmallFixed) matches Some(Font::Fixed(f)) && f.spec_width()
                == 6 && f.spec_height() == 8 && f.spec_data() == small@,
            final(self).font_of(FontFamily::SystemUI) matches Some(Font::Hershey(h))
                && h.spec_data() == futural@ && h.spec_line_height() == 34,
            final(self).font_of(FontFamily::Cursive) matches Some(Font::Hershey(h))
                && h.spec_data() == cursive@ && h.spec_line_height() == 38,
            final(self).font_of(FontFamily::SansSerif) matches Some(Font::Hershey(h))
                && h.spec_data() == futuram@ && h.spec_line_height() == 34,
            final(self).font_of(FontFamily::Serif) matches Some(Font::Hershey(h)) && h.spec_data()
                == timesr@ && h.spec_line_height() == 34,
            final(self).font_of(FontFamily::Japanese) is None,
    {
        let mut fonts: Vec<Option<Font<'a>>> = Vec::new();
        fonts.push(Some(Font::Hershey(HersheyFont::new(0, futural))));
        fonts.push(Some(Font::Hershey(HersheyFont::new(0, futuram))));
        fonts.push(Some(Font::Hershey(HersheyFont::new(0, timesr))));
        fonts.push(Some(Font::Hershey(HersheyFont::new(4, cursive))));
        fonts.push(Some(Font::Fixed(FixedFontDriver::new(8, 16, system))));
        fonts.push(Some(Font::Fixed(FixedFontDriver::new(6, 8, small))));
        fonts.push(None);
        self.fonts = fonts;
    }

    /// The font of `family`, if there is one.
    pub fn driver_for(&self, family: FontFamily) -> (r: Option<&Font<'a>>)
        requires
            self.wf(),
        ensures
            r is Some <==> self.font_of(family) is Some,
            r matches Some(f) ==> self.font_of(family) == Some(*f) && f.wf(),
    {
        if self.fonts.len() != NUMBER_OF_FAMILIES {
            return None;
        }
        match &self.fonts[slot_of(family)] {
            Some(f) => Some(f),
            None => None,
        }
    }

    /// The fixed-size system font.
    pub fn fixed_system_font(&self) -> (r: Option<&FixedFontDriver<'a>>)
        requires
            self.wf(),
        ensures
            r is Some <==> self.font_of(FontFamily::FixedSystem) matches Some(Font::Fixed(_)),
            r matches Some(f) ==> self.font_of(FontFamily::FixedSystem) == Some(Font::Fixed(*f)),
    {
        match self.driver_for(FontFamily::FixedSystem) {
            Some(Font::Fixed(f)) => Some(f),
            _ => None,
        }
    }

    /// The system font at its own size.
    pub fn system_font(&'a self) -> (r: FontDescriptor<'a>)
        requires
            self.wf(),
            self.font_of(FontFamily::FixedSystem) is Some,
        ensures
            Some(r.spec_font()) == self.font_of(FontFamily::FixedSystem),
            (r.spec_point(), r.spec_line_height()) == descriptor_metrics(r.spec_font(), 0),
    {
        FontDescriptor::new(self, FontFamily::FixedSystem, 0).unwrap()
    }

    /// The sans-serif font at 16 points, else the system font.
    pub fn title_font(&'a self) -> (r: FontDescriptor<'a>)
        requires
            self.wf(),
            self.font_of(FontFamily::FixedSystem) is Some,
        ensures
            self.font_of(FontFamily::SansSerif) is Some ==> Some(r.spec_font()) == self.font_of(
                FontFamily::SansSerif,
            ) && (r.spec_point(), r.spec_line_height()) == descriptor_metrics(r.spec_font(), 16),
            self.font_of(FontFamily::SansSerif) is None ==> Some(r.spec_font()) == self.font_of(
                FontFamily::FixedSystem,
            ) && (r.spec_point(), r.spec_line_height()) == descriptor_metrics(r.spec_font(), 0),
    {
        match FontDescriptor::new(self, FontFamily::SansSerif, 16) {
            Some(d) => d,
            None => self.system_font(),
        }
    }

    /// The user-interface font at 16 points, else the system font.
    pub fn label_font(&'a self) -> (r: FontDescriptor<'a>)
        requires
            self.wf(),
            self.font_of(FontFamily::FixedSystem) is Some,
        ensures
            self.font_of(FontFamily::SystemUI) is Some ==> Some(r.spec_font()) == self.font_of(
                FontFamily::SystemUI,
            ) && (r.spec_point(), r.spec_line_height()) == descriptor_metrics(r.spec_font(), 16),
            self.font_of(FontFamily::SystemUI) is None ==> Some(r.spec_font()) == self.font_of(
                FontFamily::FixedSystem,
            ) && (r.spec_point(), r.spec_line_height()) == descriptor_metrics(r.spec_font(), 0),
    {
        match FontDescriptor::new(self, FontFamily::SystemUI, 16) {
            Some(d) => d,
            None => self.system_font(),
        }
    }
}

} // verus!
