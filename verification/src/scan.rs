//! The cardinal-point scanner: bounding boxes with gap tolerance.
//!
//! A scan walks a rectangular region of a planar buffer column by
//! column, row by row within each column, and keeps the four extreme
//! coordinates of the pixels a [`Matcher`] accepts, together with the
//! flat sample index at which each extreme was first reached.  After a
//! column it stops early once a matched column lies a full gap behind:
//! that is how the right edge of one glyph is told apart from the start
//! of the next.  The spec functions here replay that walk cell by cell,
//! so the scanner's contract pins every field of its result.

use vstd::prelude::*;

use crate::PixelError;
use crate::bgra_management::Matcher;

verus! {

/// Four extreme coordinates of the pixels a scan accepted, each with
/// the flat sample index of the pixel that first reached it.  The
/// sentinel initialization (`top_y` and `left_x` one past their range,
/// `right_x` and `bottom_y` zero) is what a scan that accepted nothing
/// returns; [`CardinalPoints::width`] and [`CardinalPoints::height`]
/// then refuse to answer.
#[derive(Debug, Clone, Copy, PartialEq, Eq, Structural)]
pub struct CardinalPoints {
    /// Lowest row holding an accepted pixel.
    pub top_y: usize,
    /// Sample index of the pixel that first set `top_y`.
    pub top_y_index: usize,
    /// Highest column holding an accepted pixel.
    pub right_x: usize,
    /// Sample index of the pixel that first set `right_x`.
    pub right_x_index: usize,
    /// Lowest column holding an accepted pixel.
    pub left_x: usize,
    /// Sample index of the pixel that first set `left_x`.
    pub left_x_index: usize,
    /// Highest row holding an accepted pixel.
    pub bottom_y: usize,
    /// Sample index of the pixel that first set `bottom_y`.
    pub bottom_y_index: usize,
}

impl CardinalPoints {
    /// The width of the bounding box, or [`PixelError::NoMatchFound`]
    /// when no pixel was accepted and the box is undefined.
    pub fn width(&self) -> (r: Result<usize, PixelError>)
        requires
            self.right_x < usize::MAX,
        ensures
            r is Ok <==> self.left_x <= self.right_x,
            r matches Ok(w) ==> w == self.right_x - self.left_x + 1,
            r matches Err(e) ==> e == PixelError::NoMatchFound,
    {
        if self.right_x < self.left_x {
            Err(PixelError::NoMatchFound)
        } else {
            Ok(self.right_x - self.left_x + 1)
        }
    }

    /// The height of the bounding box, or [`PixelError::NoMatchFound`]
    /// when no pixel was accepted and the box is undefined.
    pub fn height(&self) -> (r: Result<usize, PixelError>)
        requires
            self.bottom_y < usize::MAX,
        ensures
            r is Ok <==> self.top_y <= self.bottom_y,
            r matches Ok(h) ==> h == self.bottom_y - self.top_y + 1,
            r matches Err(e) ==> e == PixelError::NoMatchFound,
    {
        if self.bottom_y < self.top_y {
            Err(PixelError::NoMatchFound)
        } else {
            Ok(self.bottom_y - self.top_y + 1)
        }
    }
}

/// The four channel values of the pixel at `(x, y)` of a planar buffer
/// whose rows are `stride` samples long.
pub open spec fn px_at(buf: Seq<u8>, stride: int, x: int, y: int) -> (u8, u8, u8, u8) {
    (
        buf[stride * y + 4 * x],
        buf[stride * y + 4 * x + 1],
        buf[stride * y + 4 * x + 2],
        buf[stride * y + 4 * x + 3],
    )
}

/// Whether the matcher accepts the pixel at `(x, y)`.
pub open spec fn matches_at(buf: Seq<u8>, stride: int, m: Matcher, x: int, y: int) -> bool {
    let c = px_at(buf, stride, x, y);
    m.holds(c.0, c.1, c.2, c.3)
}

/// One cell of the scan: if the pixel at `(x, y)` is accepted, each of
/// the four extremes it strictly improves is replaced, together with
/// its index; a pixel that merely equals an extreme changes nothing.
pub open spec fn scan_cell(
    st: CardinalPoints,
    buf: Seq<u8>,
    stride: int,
    m: Matcher,
    x: int,
    y: int,
) -> CardinalPoints {
    if matches_at(buf, stride, m, x, y) {
        let i = stride * y + 4 * x;
        let st1 = if y < st.top_y {
            CardinalPoints { top_y: y as usize, top_y_index: i as usize, ..st }
        } else {
            st
        };
        let st2 = if x < st1.left_x {
            CardinalPoints { left_x: x as usize, left_x_index: i as usize, ..st1 }
        } else {
            st1
        };
        let st3 = if x > st2.right_x {
            CardinalPoints { right_x: x as usize, right_x_index: i as usize, ..st2 }
        } else {
            st2
        };
        if y > st3.bottom_y {
            CardinalPoints { bottom_y: y as usize, bottom_y_index: i as usize, ..st3 }
        } else {
            st3
        }
    } else {
        st
    }
}

/// One column of the scan: the cells at rows `y`, `y + 1`, ... for
/// `rows_left` rows, in order.
pub open spec fn scan_col(
    st: CardinalPoints,
    buf: Seq<u8>,
    stride: int,
    m: Matcher,
    x: int,
    y: int,
    rows_left: nat,
) -> CardinalPoints
    decreases rows_left,
{
    if rows_left == 0 {
        st
    } else {
        scan_col(scan_cell(st, buf, stride, m, x, y), buf, stride, m, x, y + 1, (rows_left - 1) as nat)
    }
}

/// The columns of the scan from `x` on, `cols_left` of them at most:
/// after each column, scanning stops early once some column beyond
/// `start_x` has been matched and `x` has moved at least `gap` columns
/// past the last matched one.
pub open spec fn scan_cols(
    st: CardinalPoints,
    buf: Seq<u8>,
    stride: int,
    m: Matcher,
    x: int,
    cols_left: nat,
    start_x: int,
    start_y: int,
    range_y: nat,
    gap: int,
) -> CardinalPoints
    decreases cols_left,
{
    if cols_left == 0 {
        st
    } else {
        let st2 = scan_col(st, buf, stride, m, x, start_y, range_y);
        if st2.right_x > start_x && x >= st2.right_x + gap {
            st2
        } else {
            scan_cols(
                st2,
                buf,
                stride,
                m,
                x + 1,
                (cols_left - 1) as nat,
                start_x,
                start_y,
                range_y,
                gap,
            )
        }
    }
}

/// The state a scan starts from: every extreme at its sentinel.
pub open spec fn scan_init(start_x: int, start_y: int, range_x: nat, range_y: nat) -> CardinalPoints {
    CardinalPoints {
        top_y: (start_y + range_y) as usize,
        top_y_index: 0,
        right_x: 0,
        right_x_index: 0,
        left_x: (start_x + range_x) as usize,
        left_x_index: 0,
        bottom_y: 0,
        bottom_y_index: 0,
    }
}

/// The complete scan of the region `[start_x, start_x + range_x) x
/// [start_y, start_y + range_y)` with gap tolerance `gap`.
pub open spec fn spec_scan(
    buf: Seq<u8>,
    stride: int,
    m: Matcher,
    start_x: int,
    start_y: int,
    range_x: nat,
    range_y: nat,
    gap: int,
) -> CardinalPoints {
    scan_cols(
        scan_init(start_x, start_y, range_x, range_y),
        buf,
        stride,
        m,
        start_x,
        range_x,
        start_x,
        start_y,
        range_y,
        gap,
    )
}

/// Every sample index a scan of the region can touch lies inside the
/// buffer.
proof fn lemma_scan_index_bounds(len: int, height: int, stride: int, x: int, y: int, hi_x: int)
    requires
        height > 0,
        stride == len / height,
        0 <= y < height,
        0 <= x < hi_x,
        4 * hi_x <= stride,
    ensures
        0 <= stride * y + 4 * x,
        stride * y + 4 * x + 3 < len,
{
    vstd::arithmetic::mul::lemma_mul_nonnegative(stride, y);
    vstd::arithmetic::div_mod::lemma_fundamental_div_mod(len, height);
    assert(stride * y <= stride * (height - 1)) by (nonlinear_arith)
        requires
            y <= height - 1 && stride >= 0,
    ;
    assert(stride * (height - 1) == height * stride - stride) by (nonlinear_arith);
}

/// Scans the region for pixels the matcher accepts and returns their
/// four extremes, stopping early once `none_streak_x` columns have gone
/// by with no match past the last matched column.  The result is,
/// field for field, the state [`spec_scan`] reaches.
pub fn get_cardinal_points_until_nonestreak_x(
    buffer: &Vec<u8>,
    height: usize,
    start_x: usize,
    start_y: usize,
    range_x: usize,
    range_y: usize,
    none_streak_x: usize,
    bgra_matcher: Matcher,
) -> (r: CardinalPoints)
    requires
        height > 0,
        start_y + range_y <= height,
        4 * (start_x + range_x) <= (buffer@.len() as int) / (height as int),
        start_x + range_x + none_streak_x <= usize::MAX,
    ensures
        r == spec_scan(
            buffer@,
            (buffer@.len() as int) / (height as int),
            bgra_matcher,
            start_x as int,
            start_y as int,
            range_x as nat,
            range_y as nat,
            none_streak_x as int,
        ),
{
    let ghost buf = buffer@;
    let stride: usize = buffer.len() / height;
    let end_x: usize = start_x + range_x;
    let end_y: usize = start_y + range_y;
    let mut values = CardinalPoints {
        top_y: start_y + range_y,
        top_y_index: 0,
        right_x: 0,
        right_x_index: 0,
        left_x: start_x + range_x,
        left_x_index: 0,
        bottom_y: 0,
        bottom_y_index: 0,
    };
    let ghost target = spec_scan(
        buf,
        stride as int,
        bgra_matcher,
        start_x as int,
        start_y as int,
        range_x as nat,
        range_y as nat,
        none_streak_x as int,
    );
    let mut x: usize = start_x;
    while x < end_x
        invariant_except_break
            start_x <= x <= end_x,
            end_x == start_x + range_x,
            end_y == start_y + range_y,
            end_y <= height,
            stride == (buf.len() as int) / (height as int),
            4 * end_x <= stride,
            buf == buffer@,
            buf.len() <= usize::MAX,
            height > 0,
            end_x + none_streak_x <= usize::MAX,
            values.right_x <= x,
            target == scan_cols(
                values,
                buf,
                stride as int,
                bgra_matcher,
                x as int,
                (end_x - x) as nat,
                start_x as int,
                start_y as int,
                range_y as nat,
                none_streak_x as int,
            ),
        ensures
            values == target,
        decreases end_x - x,
    {
        let ghost col_start = values;
        let mut y: usize = start_y;
        while y < end_y
            invariant
                start_y <= y <= end_y,
                start_x <= x < end_x,
                end_x == start_x + range_x,
                end_y == start_y + range_y,
                end_y <= height,
                stride == (buf.len() as int) / (height as int),
                4 * end_x <= stride,
                buf == buffer@,
                buf.len() <= usize::MAX,
                height > 0,
                values.right_x <= x,
                scan_col(
                    col_start,
                    buf,
                    stride as int,
                    bgra_matcher,
                    x as int,
                    start_y as int,
                    range_y as nat,
                ) == scan_col(
                    values,
                    buf,
                    stride as int,
                    bgra_matcher,
                    x as int,
                    y as int,
                    (end_y - y) as nat,
                ),
            decreases end_y - y,
        {
            proof {
                lemma_scan_index_bounds(
                    buf.len() as int,
                    height as int,
                    stride as int,
                    x as int,
                    y as int,
                    end_x as int,
                );
            }
            let i: usize = stride * y + 4 * x;
            let ghost before = values;
            if bgra_matcher.matches(buffer[i], buffer[i + 1], buffer[i + 2], buffer[i + 3]) {
                if y < values.top_y {
                    values.top_y = y;
                    values.top_y_index = i;
                }
                if x < values.left_x {
                    values.left_x = x;
                    values.left_x_index = i;
                }
                if x > values.right_x {
                    values.right_x = x;
                    values.right_x_index = i;
                }
                if y > values.bottom_y {
                    values.bottom_y = y;
                    values.bottom_y_index = i;
                }
            }
            proof {
                assert(values == scan_cell(
                    before,
                    buf,
                    stride as int,
                    bgra_matcher,
                    x as int,
                    y as int,
                ));
            }
            y = y + 1;
        }
        if values.right_x > start_x && x >= values.right_x + none_streak_x {
            break ;
        }
        x = x + 1;
    }
    values
}

/// A column in which no pixel is accepted leaves the scan state as it
/// was.
proof fn lemma_scan_col_no_match(
    st: CardinalPoints,
    buf: Seq<u8>,
    stride: int,
    m: Matcher,
    x: int,
    y: int,
    rows_left: nat,
)
    requires
        forall|r: int| y <= r < y + rows_left ==> !matches_at(buf, stride, m, x, r),
    ensures
        scan_col(st, buf, stride, m, x, y, rows_left) == st,
    decreases rows_left,
{
    if rows_left > 0 {
        lemma_scan_col_no_match(st, buf, stride, m, x, y + 1, (rows_left - 1) as nat);
    }
}

/// Columns in which no pixel is accepted leave the scan state as it
/// was, provided its running right edge cannot trigger the early stop.
proof fn lemma_scan_cols_no_match(
    st: CardinalPoints,
    buf: Seq<u8>,
    stride: int,
    m: Matcher,
    x: int,
    cols_left: nat,
    start_x: int,
    start_y: int,
    range_y: nat,
    gap: int,
)
    requires
        st.right_x <= start_x,
        forall|c: int, r: int|
            x <= c < x + cols_left && start_y <= r < start_y + range_y ==> !matches_at(
                buf,
                stride,
                m,
                c,
                r,
            ),
    ensures
        scan_cols(st, buf, stride, m, x, cols_left, start_x, start_y, range_y, gap) == st,
    decreases cols_left,
{
    if cols_left > 0 {
        lemma_scan_col_no_match(st, buf, stride, m, x, start_y, range_y);
        lemma_scan_cols_no_match(
            st,
            buf,
            stride,
            m,
            x + 1,
            (cols_left - 1) as nat,
            start_x,
            start_y,
            range_y,
            gap,
        );
    }
}

/// Law: a scan over a region in which no pixel is accepted returns
/// every extreme at its sentinel, so the bounding box's width and
/// height are both refused.
pub proof fn lemma_scan_no_match(
    buf: Seq<u8>,
    stride: int,
    m: Matcher,
    start_x: int,
    start_y: int,
    range_x: nat,
    range_y: nat,
    gap: int,
)
    requires
        forall|x: int, y: int|
            start_x <= x < start_x + range_x && start_y <= y < start_y + range_y ==> !matches_at(
                buf,
                stride,
                m,
                x,
                y,
            ),
        range_x >= 1,
        range_y >= 1,
        0 <= start_x,
        0 <= start_y,
        start_x + range_x <= usize::MAX,
        start_y + range_y <= usize::MAX,
    ensures
        spec_scan(buf, stride, m, start_x, start_y, range_x, range_y, gap) == scan_init(
            start_x,
            start_y,
            range_x,
            range_y,
        ),
        spec_scan(buf, stride, m, start_x, start_y, range_x, range_y, gap).right_x < spec_scan(
            buf,
            stride,
            m,
            start_x,
            start_y,
            range_x,
            range_y,
            gap,
        ).left_x,
        spec_scan(buf, stride, m, start_x, start_y, range_x, range_y, gap).bottom_y < spec_scan(
            buf,
            stride,
            m,
            start_x,
            start_y,
            range_x,
            range_y,
            gap,
        ).top_y,
{
    lemma_scan_cols_no_match(
        scan_init(start_x, start_y, range_x, range_y),
        buf,
        stride,
        m,
        start_x,
        range_x,
        start_x,
        start_y,
        range_y,
        gap,
    );
}

/// A column in which every pixel is accepted pushes the running top to
/// at most its first row, the left and right edges to include its
/// column, and the bottom to at least its last row.
proof fn lemma_scan_col_all_match(
    st: CardinalPoints,
    buf: Seq<u8>,
    stride: int,
    m: Matcher,
    x: int,
    y: int,
    rows_left: nat,
)
    requires
        rows_left >= 1,
        forall|r: int| y <= r < y + rows_left ==> matches_at(buf, stride, m, x, r),
        0 <= x <= usize::MAX,
        0 <= y,
        y + rows_left <= usize::MAX,
    ensures
        scan_col(st, buf, stride, m, x, y, rows_left).top_y as int == (if y < st.top_y {
            y
        } else {
            st.top_y as int
        }),
        scan_col(st, buf, stride, m, x, y, rows_left).left_x as int == (if x < st.left_x {
            x
        } else {
            st.left_x as int
        }),
        scan_col(st, buf, stride, m, x, y, rows_left).right_x as int == (if x > st.right_x {
            x
        } else {
            st.right_x as int
        }),
        scan_col(st, buf, stride, m, x, y, rows_left).bottom_y as int == (if y + rows_left - 1
            > st.bottom_y {
            y + rows_left - 1
        } else {
            st.bottom_y as int
        }),
    decreases rows_left,
{
    let st2 = scan_cell(st, buf, stride, m, x, y);
    if rows_left == 1 {
        assert(scan_col(st2, buf, stride, m, x, y + 1, 0) == st2);
    } else {
        lemma_scan_col_all_match(st2, buf, stride, m, x, y + 1, (rows_left - 1) as nat);
    }
}

/// Columns in which every pixel is accepted never trigger the early
/// stop (the right edge tracks the current column, which a positive gap
/// keeps ahead of the stop line) and sweep the extremes out to the
/// region's corners.
proof fn lemma_scan_cols_all_match(
    st: CardinalPoints,
    buf: Seq<u8>,
    stride: int,
    m: Matcher,
    x: int,
    cols_left: nat,
    start_x: int,
    start_y: int,
    range_y: nat,
    gap: int,
)
    requires
        cols_left >= 1,
        range_y >= 1,
        gap >= 1,
        st.right_x <= x,
        forall|c: int, r: int|
            x <= c < x + cols_left && start_y <= r < start_y + range_y ==> matches_at(
                buf,
                stride,
                m,
                c,
                r,
            ),
        0 <= start_y,
        0 <= x,
        x + cols_left <= usize::MAX,
        start_y + range_y <= usize::MAX,
    ensures
        scan_cols(st, buf, stride, m, x, cols_left, start_x, start_y, range_y, gap).top_y as int
            == (if start_y < st.top_y {
            start_y
        } else {
            st.top_y as int
        }),
        scan_cols(st, buf, stride, m, x, cols_left, start_x, start_y, range_y, gap).left_x as int
            == (if x < st.left_x {
            x
        } else {
            st.left_x as int
        }),
        scan_cols(st, buf, stride, m, x, cols_left, start_x, start_y, range_y, gap).right_x as int
            == x + cols_left - 1,
        scan_cols(st, buf, stride, m, x, cols_left, start_x, start_y, range_y, gap).bottom_y as int
            == (if start_y + range_y - 1 > st.bottom_y {
            start_y + range_y - 1
        } else {
            st.bottom_y as int
        }),
    decreases cols_left,
{
    lemma_scan_col_all_match(st, buf, stride, m, x, start_y, range_y);
    let st2 = scan_col(st, buf, stride, m, x, start_y, range_y);
    if cols_left == 1 {
        assert(scan_cols(st2, buf, stride, m, x + 1, 0, start_x, start_y, range_y, gap) == st2);
    } else {
        lemma_scan_cols_all_match(
            st2,
            buf,
            stride,
            m,
            x + 1,
            (cols_left - 1) as nat,
            start_x,
            start_y,
            range_y,
            gap,
        );
    }
}

/// Law: a scan over a region in which every pixel is accepted returns
/// exactly the region's corners: its left and right columns and its top
/// and bottom rows.  A zero gap tolerance is left out: it would stop
/// the sweep right after the region's second column.
pub proof fn lemma_scan_all_matching(
    buf: Seq<u8>,
    stride: int,
    m: Matcher,
    start_x: int,
    start_y: int,
    range_x: nat,
    range_y: nat,
    gap: int,
)
    requires
        forall|x: int, y: int|
            start_x <= x < start_x + range_x && start_y <= y < start_y + range_y ==> matches_at(
                buf,
                stride,
                m,
                x,
                y,
            ),
        range_x >= 1,
        range_y >= 1,
        gap >= 1,
        0 <= start_x,
        0 <= start_y,
        start_x + range_x <= usize::MAX,
        start_y + range_y <= usize::MAX,
    ensures
        spec_scan(buf, stride, m, start_x, start_y, range_x, range_y, gap).left_x == start_x,
        spec_scan(buf, stride, m, start_x, start_y, range_x, range_y, gap).right_x as int
            == start_x + range_x - 1,
        spec_scan(buf, stride, m, start_x, start_y, range_x, range_y, gap).top_y == start_y,
        spec_scan(buf, stride, m, start_x, start_y, range_x, range_y, gap).bottom_y as int
            == start_y + range_y - 1,
{
    lemma_scan_cols_all_match(
        scan_init(start_x, start_y, range_x, range_y),
        buf,
        stride,
        m,
        start_x,
        range_x,
        start_x,
        start_y,
        range_y,
        gap,
    );
}

/// Each extreme a column sweep leaves behind is either what it started
/// as or a coordinate of the column's cells.
proof fn lemma_scan_col_field_bounds(
    st: CardinalPoints,
    buf: Seq<u8>,
    stride: int,
    m: Matcher,
    x: int,
    y: int,
    rows_left: nat,
)
    requires
        0 <= x <= usize::MAX,
        0 <= y,
        y + rows_left <= usize::MAX,
    ensures
        ({
            let res = scan_col(st, buf, stride, m, x, y, rows_left);
            &&& (res.left_x == st.left_x || res.left_x == x)
            &&& (res.right_x == st.right_x || res.right_x == x)
            &&& (res.top_y == st.top_y || y <= res.top_y < y + rows_left)
            &&& (res.bottom_y == st.bottom_y || y <= res.bottom_y < y + rows_left)
        }),
    decreases rows_left,
{
    if rows_left > 0 {
        lemma_scan_col_field_bounds(
            scan_cell(st, buf, stride, m, x, y),
            buf,
            stride,
            m,
            x,
            y + 1,
            (rows_left - 1) as nat,
        );
    }
}

/// Each extreme a multi-column sweep leaves behind is either what it
/// started as or a coordinate inside the swept region.
proof fn lemma_scan_cols_field_bounds(
    st: CardinalPoints,
    buf: Seq<u8>,
    stride: int,
    m: Matcher,
    x: int,
    cols_left: nat,
    start_x: int,
    start_y: int,
    range_y: nat,
    gap: int,
)
    requires
        0 <= x,
        x + cols_left <= usize::MAX,
        0 <= start_y,
        start_y + range_y <= usize::MAX,
    ensures
        ({
            let res = scan_cols(st, buf, stride, m, x, cols_left, start_x, start_y, range_y, gap);
            &&& (res.left_x == st.left_x || x <= res.left_x < x + cols_left)
            &&& (res.right_x == st.right_x || x <= res.right_x < x + cols_left)
            &&& (res.top_y == st.top_y || start_y <= res.top_y < start_y + range_y)
            &&& (res.bottom_y == st.bottom_y || start_y <= res.bottom_y < start_y + range_y)
        }),
    decreases cols_left,
{
    if cols_left > 0 {
        lemma_scan_col_field_bounds(st, buf, stride, m, x, start_y, range_y);
        let st2 = scan_col(st, buf, stride, m, x, start_y, range_y);
        if st2.right_x > start_x && x >= st2.right_x + gap {
        } else {
            lemma_scan_cols_field_bounds(
                st2,
                buf,
                stride,
                m,
                x + 1,
                (cols_left - 1) as nat,
                start_x,
                start_y,
                range_y,
                gap,
            );
        }
    }
}

/// Law: whatever a scan returns, each extreme is either its sentinel or
/// a coordinate inside the scanned region; so whenever the bounding box
/// is defined at all (left at most right, top at most bottom, over a
/// region that has at least one column and one row), all four extremes
/// lie inside the region.
pub proof fn lemma_spec_scan_in_region(
    buf: Seq<u8>,
    stride: int,
    m: Matcher,
    start_x: int,
    start_y: int,
    range_x: nat,
    range_y: nat,
    gap: int,
)
    requires
        0 <= start_x,
        0 <= start_y,
        start_x + range_x <= usize::MAX,
        start_y + range_y <= usize::MAX,
    ensures
        ({
            let res = spec_scan(buf, stride, m, start_x, start_y, range_x, range_y, gap);
            &&& (res.left_x == start_x + range_x || start_x <= res.left_x < start_x + range_x)
            &&& (res.right_x == 0 || start_x <= res.right_x < start_x + range_x)
            &&& (res.top_y == start_y + range_y || start_y <= res.top_y < start_y + range_y)
            &&& (res.bottom_y == 0 || start_y <= res.bottom_y < start_y + range_y)
        }),
{
    lemma_scan_cols_field_bounds(
        scan_init(start_x, start_y, range_x, range_y),
        buf,
        stride,
        m,
        start_x,
        range_x,
        start_x,
        start_y,
        range_y,
        gap,
    );
}

/// The buffer a grab of the region produces: `range_x * range_y` pixels
/// in row-major order, each either copied from the source, when the
/// matcher accepts it, or forced to the invisible value.
pub open spec fn grab_spec(
    buf: Seq<u8>,
    stride: int,
    m: Matcher,
    start_x: int,
    start_y: int,
    range_x: nat,
    range_y: nat,
) -> Seq<u8> {
    Seq::new(
        (4 * range_x * range_y) as nat,
        |j: int|
            {
                let rstride = 4 * range_x;
                let ry = j / (rstride as int);
                let rx = (j % (rstride as int)) / 4;
                let c = j % 4;
                if matches_at(buf, stride, m, start_x + rx, start_y + ry) {
                    buf[stride * (start_y + ry) + 4 * (start_x + rx) + c]
                } else {
                    0u8
                }
            },
    )
}

/// One cell of a grab's extreme tracking: the pixel's acceptance is read
/// at its absolute position, while the recorded coordinates and sample
/// index are relative to the grabbed rectangle.
pub open spec fn grab_cell(
    st: CardinalPoints,
    buf: Seq<u8>,
    stride: int,
    m: Matcher,
    start_x: int,
    start_y: int,
    rstride: int,
    rx: int,
    ry: int,
) -> CardinalPoints {
    if matches_at(buf, stride, m, start_x + rx, start_y + ry) {
        let j = rstride * ry + 4 * rx;
        let st1 = if ry < st.top_y {
            CardinalPoints { top_y: ry as usize, top_y_index: j as usize, ..st }
        } else {
            st
        };
        let st2 = if rx < st1.left_x {
            CardinalPoints { left_x: rx as usize, left_x_index: j as usize, ..st1 }
        } else {
            st1
        };
        let st3 = if rx > st2.right_x {
            CardinalPoints { right_x: rx as usize, right_x_index: j as usize, ..st2 }
        } else {
            st2
        };
        if ry > st3.bottom_y {
            CardinalPoints { bottom_y: ry as usize, bottom_y_index: j as usize, ..st3 }
        } else {
            st3
        }
    } else {
        st
    }
}

/// One row of a grab's extreme tracking: the cells at relative columns
/// `rx`, `rx + 1`, ... for `cols_left` columns, in order.
pub open spec fn grab_row(
    st: CardinalPoints,
    buf: Seq<u8>,
    stride: int,
    m: Matcher,
    start_x: int,
    start_y: int,
    rstride: int,
    rx: int,
    cols_left: nat,
    ry: int,
) -> CardinalPoints
    decreases cols_left,
{
    if cols_left == 0 {
        st
    } else {
        grab_row(
            grab_cell(st, buf, stride, m, start_x, start_y, rstride, rx, ry),
            buf,
            stride,
            m,
            start_x,
            start_y,
            rstride,
            rx + 1,
            (cols_left - 1) as nat,
            ry,
        )
    }
}

/// The rows of a grab's extreme tracking from relative row `ry` on,
/// `rows_left` of them, each swept over all `range_x` columns.
pub open spec fn grab_rows(
    st: CardinalPoints,
    buf: Seq<u8>,
    stride: int,
    m: Matcher,
    start_x: int,
    start_y: int,
    rstride: int,
    range_x: nat,
    ry: int,
    rows_left: nat,
) -> CardinalPoints
    decreases rows_left,
{
    if rows_left == 0 {
        st
    } else {
        grab_rows(
            grab_row(st, buf, stride, m, start_x, start_y, rstride, 0, range_x, ry),
            buf,
            stride,
            m,
            start_x,
            start_y,
            rstride,
            range_x,
            ry + 1,
            (rows_left - 1) as nat,
        )
    }
}

/// The extreme tracking of a whole grab, from the sentinel state.
pub open spec fn grab_points(
    buf: Seq<u8>,
    stride: int,
    m: Matcher,
    start_x: int,
    start_y: int,
    range_x: nat,
    range_y: nat,
) -> CardinalPoints {
    grab_rows(
        scan_init(start_x, start_y, range_x, range_y),
        buf,
        stride,
        m,
        start_x,
        start_y,
        4 * range_x as int,
        range_x,
        0,
        range_y,
    )
}

/// Copies the pixels of the region that the matcher accepts into a new
/// buffer of the region's size, row by row, forcing every other pixel
/// to the invisible value, and returns with it the extremes of the
/// accepted pixels in coordinates relative to the grabbed rectangle.
pub fn pixel_grabber(
    buffer: &Vec<u8>,
    height: usize,
    start_x: usize,
    start_y: usize,
    range_x: usize,
    range_y: usize,
    bgra_matcher: Matcher,
) -> (r: (Vec<u8>, CardinalPoints))
    requires
        height > 0,
        range_y >= 1,
        start_y + range_y <= height,
        4 * (start_x + range_x) <= (buffer@.len() as int) / (height as int),
        range_x * range_y * 4 <= usize::MAX,
    ensures
        r.0@ == grab_spec(
            buffer@,
            (buffer@.len() as int) / (height as int),
            bgra_matcher,
            start_x as int,
            start_y as int,
            range_x as nat,
            range_y as nat,
        ),
        r.1 == grab_points(
            buffer@,
            (buffer@.len() as int) / (height as int),
            bgra_matcher,
            start_x as int,
            start_y as int,
            range_x as nat,
            range_y as nat,
        ),
{
    let ghost buf = buffer@;
    let stride: usize = buffer.len() / height;
    let rstride: usize = (range_x * range_y * 4) / range_y;
    proof {
        let rxi = range_x as int;
        let ryi = range_y as int;
        assert(rxi * ryi * 4 == ryi * (4 * rxi)) by (nonlinear_arith);
        vstd::arithmetic::div_mod::lemma_div_multiples_vanish(4 * rxi, ryi);
        assert(rstride == 4 * rxi);
        assert(4 * rxi * ryi == rxi * ryi * 4) by (nonlinear_arith);
    }
    let ghost target = grab_spec(
        buf,
        stride as int,
        bgra_matcher,
        start_x as int,
        start_y as int,
        range_x as nat,
        range_y as nat,
    );
    let ghost target_points = grab_points(
        buf,
        stride as int,
        bgra_matcher,
        start_x as int,
        start_y as int,
        range_x as nat,
        range_y as nat,
    );
    let mut pixels_captured: Vec<u8> = Vec::new();
    let mut values = CardinalPoints {
        top_y: start_y + range_y,
        top_y_index: 0,
        right_x: 0,
        right_x_index: 0,
        left_x: start_x + range_x,
        left_x_index: 0,
        bottom_y: 0,
        bottom_y_index: 0,
    };
    let end_x: usize = start_x + range_x;
    let end_y: usize = start_y + range_y;
    let mut ry: usize = 0;
    while ry < range_y
        invariant
            ry <= range_y,
            end_x == start_x + range_x,
            end_y == start_y + range_y,
            end_y <= height,
            height > 0,
            stride == (buf.len() as int) / (height as int),
            rstride == 4 * range_x,
            4 * end_x <= stride,
            4 * range_x * range_y <= usize::MAX,
            buf == buffer@,
            buf.len() <= usize::MAX,
            pixels_captured@.len() == rstride * ry,
            pixels_captured@ =~= target.subrange(0, (rstride * ry) as int),
            target == grab_spec(
                buf,
                stride as int,
                bgra_matcher,
                start_x as int,
                start_y as int,
                range_x as nat,
                range_y as nat,
            ),
            target_points == grab_rows(
                values,
                buf,
                stride as int,
                bgra_matcher,
                start_x as int,
                start_y as int,
                rstride as int,
                range_x as nat,
                ry as int,
                (range_y - ry) as nat,
            ),
        decreases range_y - ry,
    {
        let ghost row_start = values;
        let y: usize = start_y + ry;
        let mut rx: usize = 0;
        while rx < range_x
            invariant
                rx <= range_x,
                ry < range_y,
                y == start_y + ry,
                end_x == start_x + range_x,
                end_y == start_y + range_y,
                end_y <= height,
                height > 0,
                stride == (buf.len() as int) / (height as int),
                rstride == 4 * range_x,
                4 * end_x <= stride,
                4 * range_x * range_y <= usize::MAX,
                buf == buffer@,
                buf.len() <= usize::MAX,
                pixels_captured@.len() == rstride * ry + 4 * rx,
                pixels_captured@ =~= target.subrange(0, (rstride * ry + 4 * rx) as int),
                target == grab_spec(
                    buf,
                    stride as int,
                    bgra_matcher,
                    start_x as int,
                    start_y as int,
                    range_x as nat,
                    range_y as nat,
                ),
                grab_row(
                    row_start,
                    buf,
                    stride as int,
                    bgra_matcher,
                    start_x as int,
                    start_y as int,
                    rstride as int,
                    0,
                    range_x as nat,
                    ry as int,
                ) == grab_row(
                    values,
                    buf,
                    stride as int,
                    bgra_matcher,
                    start_x as int,
                    start_y as int,
                    rstride as int,
                    rx as int,
                    (range_x - rx) as nat,
                    ry as int,
                ),
            decreases range_x - rx,
        {
            let x: usize = start_x + rx;
            proof {
                lemma_scan_index_bounds(
                    buf.len() as int,
                    height as int,
                    stride as int,
                    x as int,
                    y as int,
                    end_x as int,
                );
                assert((rstride as int) * (ry as int) + 4 * (rx as int) + 3 < 4 * (
                range_x as int) * (range_y as int)) by (nonlinear_arith)
                    requires
                        rstride == 4 * range_x,
                        0 <= rx < range_x,
                        0 <= ry < range_y,
                ;
                vstd::arithmetic::mul::lemma_mul_nonnegative(rstride as int, ry as int);
            }
            let i: usize = stride * y + 4 * x;
            let j: usize = rstride * ry + 4 * rx;
            let ghost before = values;
            let ghost base = pixels_captured@.len() as int;
            if bgra_matcher.matches(buffer[i], buffer[i + 1], buffer[i + 2], buffer[i + 3]) {
                pixels_captured.push(buffer[i]);
                pixels_captured.push(buffer[i + 1]);
                pixels_captured.push(buffer[i + 2]);
                pixels_captured.push(buffer[i + 3]);
                if ry < values.top_y {
                    values.top_y = ry;
                    values.top_y_index = j;
                }
                if rx < values.left_x {
                    values.left_x = rx;
                    values.left_x_index = j;
                }
                if rx > values.right_x {
                    values.right_x = rx;
                    values.right_x_index = j;
                }
                if ry > values.bottom_y {
                    values.bottom_y = ry;
                    values.bottom_y_index = j;
                }
            } else {
                pixels_captured.push(0);
                pixels_captured.push(0);
                pixels_captured.push(0);
                pixels_captured.push(0);
            }
            proof {
                assert(values == grab_cell(
                    before,
                    buf,
                    stride as int,
                    bgra_matcher,
                    start_x as int,
                    start_y as int,
                    rstride as int,
                    rx as int,
                    ry as int,
                ));
                assert forall|p: int| base <= p < base + 4 implies pixels_captured@[p]
                    == target[p] by {
                    assert((ry as int) * (rstride as int) == (rstride as int) * (ry as int))
                        by (nonlinear_arith);
                    assert((rx as int) * 4 == 4 * (rx as int)) by (nonlinear_arith);
                    assert(((range_x as int) * (ry as int) + (rx as int)) * 4 == 4 * ((
                    range_x as int) * (ry as int) + (rx as int))) by (nonlinear_arith);
                    vstd::arithmetic::div_mod::lemma_fundamental_div_mod_converse(
                        p,
                        rstride as int,
                        ry as int,
                        p - (rstride as int) * (ry as int),
                    );
                    vstd::arithmetic::div_mod::lemma_fundamental_div_mod_converse(
                        p % (rstride as int),
                        4,
                        rx as int,
                        p % (rstride as int) - 4 * (rx as int),
                    );
                    assert(base == 4 * ((range_x as int) * (ry as int) + (rx as int)))
                        by (nonlinear_arith)
                        requires
                            base == (rstride as int) * (ry as int) + 4 * (rx as int),
                            rstride == 4 * range_x,
                    ;
                    vstd::arithmetic::div_mod::lemma_fundamental_div_mod_converse(
                        p,
                        4,
                        (range_x as int) * (ry as int) + (rx as int),
                        p - base,
                    );
                }
                assert(pixels_captured@ =~= target.subrange(0, base + 4));
            }
            rx = rx + 1;
        }
        proof {
            assert((rstride as int) * (ry as int) + (rstride as int) == (rstride as int) * ((
            ry as int) + 1)) by (nonlinear_arith);
        }
        ry = ry + 1;
    }
    (pixels_captured, values)
}

} // verus!
