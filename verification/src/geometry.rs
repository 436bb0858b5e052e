//! Cell positions and rectangles over any integer representation.

use vstd::prelude::*;

verus! {

/// An integer representation of a cell index. The canonical domain of cell
/// indices is the unsigned 16-bit range; every conversion is a plain cast,
/// which keeps the low bits where the value does not fit.
pub trait Int: Sized {
    /// The cell index that the value stands for.
    spec fn spec_to_u16(&self) -> u16;

    /// The value that stands for a cell index.
    spec fn spec_from_u16(v: u16) -> Self;

    /// The value lies in the canonical domain, so reading it loses nothing.
    spec fn is_cell(&self) -> bool;

    /// The representation can hold the cell index without loss.
    spec fn holds(v: u16) -> bool;

    /// The cell index that the value stands for.
    fn to_u16(&self) -> (r: u16)
        ensures
            r == self.spec_to_u16(),
    ;

    /// The value that stands for a cell index.
    fn from_u16(v: u16) -> (r: Self)
        ensures
            r == Self::spec_from_u16(v),
    ;

    /// An index that the representation holds is read back unchanged.
    proof fn lemma_index_kept(v: u16)
        requires
            Self::holds(v),
        ensures
            Self::spec_from_u16(v).spec_to_u16() == v,
            Self::spec_from_u16(v).is_cell(),
    ;

    /// A value in the canonical domain is written back unchanged.
    proof fn lemma_value_kept(&self)
        requires
            self.is_cell(),
        ensures
            Self::spec_from_u16(self.spec_to_u16()) == *self,
            Self::holds(self.spec_to_u16()),
    ;
}

impl Int for u16 {
    open spec fn spec_to_u16(&self) -> u16 {
        *self
    }

    open spec fn spec_from_u16(v: u16) -> Self {
        v
    }

    open spec fn is_cell(&self) -> bool {
        true
    }

    open spec fn holds(v: u16) -> bool {
        true
    }

    fn to_u16(&self) -> (r: u16) {
        *self
    }

    fn from_u16(v: u16) -> (r: Self) {
        v
    }

    proof fn lemma_index_kept(v: u16) {
    }

    proof fn lemma_value_kept(&self) {
    }
}

impl Int for u8 {
    open spec fn spec_to_u16(&self) -> u16 {
        *self as u16
    }

    open spec fn spec_from_u16(v: u16) -> Self {
        v as u8
    }

    open spec fn is_cell(&self) -> bool {
        true
    }

    open spec fn holds(v: u16) -> bool {
        v <= 0xff
    }

    fn to_u16(&self) -> (r: u16) {
        *self as u16
    }

    fn from_u16(v: u16) -> (r: Self) {
        #[verifier::truncate] (v as u8)
    }

    proof fn lemma_index_kept(v: u16) {
    }

    proof fn lemma_value_kept(&self) {
    }
}

impl Int for u32 {
    open spec fn spec_to_u16(&self) -> u16 {
        *self as u16
    }

    open spec fn spec_from_u16(v: u16) -> Self {
        v as u32
    }

    open spec fn is_cell(&self) -> bool {
        *self <= 0xffff
    }

    open spec fn holds(v: u16) -> bool {
        true
    }

    fn to_u16(&self) -> (r: u16) {
        #[verifier::truncate] (*self as u16)
    }

    fn from_u16(v: u16) -> (r: Self) {
        v as u32
    }

    proof fn lemma_index_kept(v: u16) {
    }

    proof fn lemma_value_kept(&self) {
    }
}

impl Int for u64 {
    open spec fn spec_to_u16(&self) -> u16 {
        *self as u16
    }

    open spec fn spec_from_u16(v: u16) -> Self {
        v as u64
    }

    open spec fn is_cell(&self) -> bool {
        *self <= 0xffff
    }

    open spec fn holds(v: u16) -> bool {
        true
    }

    fn to_u16(&self) -> (r: u16) {
        #[verifier::truncate] (*self as u16)
    }

    fn from_u16(v: u16) -> (r: Self) {
        v as u64
    }

    proof fn lemma_index_kept(v: u16) {
    }

    proof fn lemma_value_kept(&self) {
    }
}

impl Int for u128 {
    open spec fn spec_to_u16(&self) -> u16 {
        *self as u16
    }

    open spec fn spec_from_u16(v: u16) -> Self {
        v as u128
    }

    open spec fn is_cell(&self) -> bool {
        *self <= 0xffff
    }

    open spec fn holds(v: u16) -> bool {
        true
    }

    fn to_u16(&self) -> (r: u16) {
        #[verifier::truncate] (*self as u16)
    }

    fn from_u16(v: u16) -> (r: Self) {
        v as u128
    }

    proof fn lemma_index_kept(v: u16) {
    }

    proof fn lemma_value_kept(&self) {
    }
}

impl Int for usize {
    open spec fn spec_to_u16(&self) -> u16 {
        *self as u16
    }

    open spec fn spec_from_u16(v: u16) -> Self {
        v as usize
    }

    open spec fn is_cell(&self) -> bool {
        *self <= 0xffff
    }

    open spec fn holds(v: u16) -> bool {
        true
    }

    fn to_u16(&self) -> (r: u16) {
        #[verifier::truncate] (*self as u16)
    }

    fn from_u16(v: u16) -> (r: Self) {
        v as usize
    }

    proof fn lemma_index_kept(v: u16) {
    }

    proof fn lemma_value_kept(&self) {
    }
}

impl Int for i8 {
    open spec fn spec_to_u16(&self) -> u16 {
        *self as u16
    }

    open spec fn spec_from_u16(v: u16) -> Self {
        v as i8
    }

    open spec fn is_cell(&self) -> bool {
        0 <= *self
    }

    open spec fn holds(v: u16) -> bool {
        v <= 0x7f
    }

    fn to_u16(&self) -> (r: u16) {
        #[verifier::truncate] (*self as u16)
    }

    fn from_u16(v: u16) -> (r: Self) {
        #[verifier::truncate] (v as i8)
    }

    proof fn lemma_index_kept(v: u16) {
    }

    proof fn lemma_value_kept(&self) {
    }
}

impl Int for i16 {
    open spec fn spec_to_u16(&self) -> u16 {
        *self as u16
    }

    open spec fn spec_from_u16(v: u16) -> Self {
        v as i16
    }

    open spec fn is_cell(&self) -> bool {
        0 <= *self
    }

    open spec fn holds(v: u16) -> bool {
        v <= 0x7fff
    }

    fn to_u16(&self) -> (r: u16) {
        #[verifier::truncate] (*self as u16)
    }

    fn from_u16(v: u16) -> (r: Self) {
        #[verifier::truncate] (v as i16)
    }

    proof fn lemma_index_kept(v: u16) {
    }

    proof fn lemma_value_kept(&self) {
    }
}

impl Int for i32 {
    open spec fn spec_to_u16(&self) -> u16 {
        *self as u16
    }

    open spec fn spec_from_u16(v: u16) -> Self {
        v as i32
    }

    open spec fn is_cell(&self) -> bool {
        0 <= *self <= 0xffff
    }

    open spec fn holds(v: u16) -> bool {
        true
    }

    fn to_u16(&self) -> (r: u16) {
        #[verifier::truncate] (*self as u16)
    }

    fn from_u16(v: u16) -> (r: Self) {
        v as i32
    }

    proof fn lemma_index_kept(v: u16) {
    }

    proof fn lemma_value_kept(&self) {
    }
}

impl Int for i64 {
    open spec fn spec_to_u16(&self) -> u16 {
        *self as u16
    }

    open spec fn spec_from_u16(v: u16) -> Self {
        v as i64
    }

    open spec fn is_cell(&self) -> bool {
        0 <= *self <= 0xffff
    }

    open spec fn holds(v: u16) -> bool {
        true
    }

    fn to_u16(&self) -> (r: u16) {
        #[verifier::truncate] (*self as u16)
    }

    fn from_u16(v: u16) -> (r: Self) {
        v as i64
    }

    proof fn lemma_index_kept(v: u16) {
    }

    proof fn lemma_value_kept(&self) {
    }
}

impl Int for i128 {
    open spec fn spec_to_u16(&self) -> u16 {
        *self as u16
    }

    open spec fn spec_from_u16(v: u16) -> Self {
        v as i128
    }

    open spec fn is_cell(&self) -> bool {
        0 <= *self <= 0xffff
    }

    open spec fn holds(v: u16) -> bool {
        true
    }

    fn to_u16(&self) -> (r: u16) {
        #[verifier::truncate] (*self as u16)
    }

    fn from_u16(v: u16) -> (r: Self) {
        v as i128
    }

    proof fn lemma_index_kept(v: u16) {
    }

    proof fn lemma_value_kept(&self) {
    }
}

impl Int for isize {
    open spec fn spec_to_u16(&self) -> u16 {
        *self as u16
    }

    open spec fn spec_from_u16(v: u16) -> Self {
        v as isize
    }

    open spec fn is_cell(&self) -> bool {
        0 <= *self <= 0xffff
    }

    open spec fn holds(v: u16) -> bool {
        true
    }

    fn to_u16(&self) -> (r: u16) {
        #[verifier::truncate] (*self as u16)
    }

    fn from_u16(v: u16) -> (r: Self) {
        v as isize
    }

    proof fn lemma_index_kept(v: u16) {
    }

    proof fn lemma_value_kept(&self) {
    }
}

/// A cell position: `x` is the column and `y` the row, both in the canonical
/// domain whatever representation holds them.
pub trait Vec2: Sized {
    /// The column of the position.
    spec fn spec_x(&self) -> u16;

    /// The row of the position.
    spec fn spec_y(&self) -> u16;

    /// The position made of a column and a row.
    spec fn spec_new(x: u16, y: u16) -> Self;

    /// Both components lie in the canonical domain.
    spec fn is_cell(&self) -> bool;

    /// The representation can hold the column and the row without loss.
    spec fn holds(x: u16, y: u16) -> bool;

    /// The column of the position.
    fn x(&self) -> (r: u16)
        ensures
            r == self.spec_x(),
    ;

    /// The row of the position.
    fn y(&self) -> (r: u16)
        ensures
            r == self.spec_y(),
    ;

    /// The position made of a column and a row.
    fn new(x: u16, y: u16) -> (r: Self)
        ensures
            r == Self::spec_new(x, y),
    ;

    /// A column and a row that the representation holds are read back
    /// unchanged.
    proof fn lemma_index_kept(x: u16, y: u16)
        requires
            Self::holds(x, y),
        ensures
            Self::spec_new(x, y).spec_x() == x,
            Self::spec_new(x, y).spec_y() == y,
            Self::spec_new(x, y).is_cell(),
    ;

    /// A position in the canonical domain is written back unchanged.
    proof fn lemma_value_kept(&self)
        requires
            self.is_cell(),
        ensures
            Self::spec_new(self.spec_x(), self.spec_y()) == *self,
            Self::holds(self.spec_x(), self.spec_y()),
    ;
}

impl<N1: Int, N2: Int> Vec2 for (N1, N2) {
    open spec fn spec_x(&self) -> u16 {
        self.0.spec_to_u16()
    }

    open spec fn spec_y(&self) -> u16 {
        self.1.spec_to_u16()
    }

    open spec fn spec_new(x: u16, y: u16) -> Self {
        (N1::spec_from_u16(x), N2::spec_from_u16(y))
    }

    open spec fn is_cell(&self) -> bool {
        self.0.is_cell() && self.1.is_cell()
    }

    open spec fn holds(x: u16, y: u16) -> bool {
        N1::holds(x) && N2::holds(y)
    }

    fn x(&self) -> (r: u16) {
        self.0.to_u16()
    }

    fn y(&self) -> (r: u16) {
        self.1.to_u16()
    }

    fn new(x: u16, y: u16) -> (r: Self) {
        (N1::from_u16(x), N2::from_u16(y))
    }

    proof fn lemma_index_kept(x: u16, y: u16) {
        N1::lemma_index_kept(x);
        N2::lemma_index_kept(y);
    }

    proof fn lemma_value_kept(&self) {
        self.0.lemma_value_kept();
        self.1.lemma_value_kept();
    }
}

/// A position in the canonical representation.
pub type DefVec2 = (u16, u16);

/// The same position in another representation.
pub fn convert_vec2<T: Vec2, U: Vec2>(t: &T) -> (r: U)
    ensures
        r == U::spec_new(t.spec_x(), t.spec_y()),
{
    U::new(t.x(), t.y())
}

/// Converting a position to another representation and back gives the
/// position itself, where its components lie in the canonical domain and the
/// other representation holds them.
pub proof fn lemma_position_round_trip<A: Vec2, B: Vec2>(a: A)
    requires
        a.is_cell(),
        B::holds(a.spec_x(), a.spec_y()),
    ensures
        ({
            let b = B::spec_new(a.spec_x(), a.spec_y());
            A::spec_new(b.spec_x(), b.spec_y()) == a
        }),
{
    B::lemma_index_kept(a.spec_x(), a.spec_y());
    a.lemma_value_kept();
}

/// The smaller of two cell indices.
pub open spec fn lower(a: u16, b: u16) -> u16 {
    if a <= b {
        a
    } else {
        b
    }
}

/// The larger of two cell indices.
pub open spec fn upper(a: u16, b: u16) -> u16 {
    if a <= b {
        b
    } else {
        a
    }
}

/// A rectangle of cells with inclusive bounds: one of width 1 spans exactly
/// one column.
pub trait Rect: Sized {
    /// The leftmost column.
    spec fn spec_left(&self) -> u16;

    /// The topmost row.
    spec fn spec_top(&self) -> u16;

    /// The number of rows.
    spec fn spec_h(&self) -> int;

    /// The number of columns.
    spec fn spec_w(&self) -> int;

    /// The rectangle with the given top-left cell and size.
    spec fn spec_new(left: u16, top: u16, w: u16, h: u16) -> Self;

    /// Both corners lie in the canonical domain.
    spec fn is_cell(&self) -> bool;

    /// The representation can hold the rectangle's corners without loss.
    spec fn holds(left: u16, top: u16, w: u16, h: u16) -> bool;

    /// The leftmost column.
    fn left(&self) -> (r: u16)
        ensures
            r == self.spec_left(),
    ;

    /// The topmost row.
    fn top(&self) -> (r: u16)
        ensures
            r == self.spec_top(),
    ;

    /// The number of rows.
    fn h(&self) -> (r: u16)
        requires
            self.spec_h() <= u16::MAX,
        ensures
            r == self.spec_h(),
    ;

    /// The number of columns.
    fn w(&self) -> (r: u16)
        requires
            self.spec_w() <= u16::MAX,
        ensures
            r == self.spec_w(),
    ;

    /// The rectangle with the given top-left cell and size.
    fn new(left: u16, top: u16, w: u16, h: u16) -> (r: Self)
        requires
            spans(left, top, w as int, h as int),
        ensures
            r == Self::spec_new(left, top, w, h),
    ;

    /// Whether the rectangle lies in the canonical domain with a size that
    /// can be given as cell indices: what the other methods ask for.
    fn in_bounds(&self) -> (ok: bool)
        ensures
            ok == spans(self.spec_left(), self.spec_top(), self.spec_w(), self.spec_h()),
    ;

    /// The last row: `top + h - 1`.
    fn bottom(&self) -> (r: u16)
        requires
            spans_rows(self.spec_top(), self.spec_h()),
        ensures
            r == self.spec_top() + self.spec_h() - 1,
            r - self.spec_top() + 1 == self.spec_h(),
    {
        self.top() + (self.h() - 1)
    }

    /// The last column: `left + w - 1`.
    fn right(&self) -> (r: u16)
        requires
            spans_columns(self.spec_left(), self.spec_w()),
        ensures
            r == self.spec_left() + self.spec_w() - 1,
            r - self.spec_left() + 1 == self.spec_w(),
    {
        self.left() + (self.w() - 1)
    }

    /// The top-left cell.
    fn top_left(&self) -> (r: DefVec2)
        ensures
            r == (self.spec_left(), self.spec_top()),
    {
        (self.left(), self.top())
    }

    /// The top-right cell.
    fn top_right(&self) -> (r: DefVec2)
        requires
            spans_columns(self.spec_left(), self.spec_w()),
        ensures
            r.0 == self.spec_left() + self.spec_w() - 1,
            r.1 == self.spec_top(),
    {
        (self.right(), self.top())
    }

    /// The bottom-left cell.
    fn bottom_left(&self) -> (r: DefVec2)
        requires
            spans_rows(self.spec_top(), self.spec_h()),
        ensures
            r.0 == self.spec_left(),
            r.1 == self.spec_top() + self.spec_h() - 1,
    {
        (self.left(), self.bottom())
    }

    /// The bottom-right cell.
    fn bottom_right(&self) -> (r: DefVec2)
        requires
            spans(self.spec_left(), self.spec_top(), self.spec_w(), self.spec_h()),
        ensures
            r.0 == self.spec_left() + self.spec_w() - 1,
            r.1 == self.spec_top() + self.spec_h() - 1,
    {
        (self.right(), self.bottom())
    }

    /// A rectangle that the representation holds is read back unchanged.
    proof fn lemma_index_kept(left: u16, top: u16, w: u16, h: u16)
        requires
            spans(left, top, w as int, h as int),
            Self::holds(left, top, w, h),
        ensures
            Self::spec_new(left, top, w, h).spec_left() == left,
            Self::spec_new(left, top, w, h).spec_top() == top,
            Self::spec_new(left, top, w, h).spec_w() == w,
            Self::spec_new(left, top, w, h).spec_h() == h,
            Self::spec_new(left, top, w, h).is_cell(),
    ;
}

/// A leftmost column and a width describe columns in the canonical domain: at
/// least one, with the last one in range.
pub open spec fn spans_columns(left: u16, w: int) -> bool {
    1 <= w <= u16::MAX && left + w - 1 <= u16::MAX
}

/// A topmost row and a height describe rows in the canonical domain: at least
/// one, with the last one in range.
pub open spec fn spans_rows(top: u16, h: int) -> bool {
    1 <= h <= u16::MAX && top + h - 1 <= u16::MAX
}

/// A top-left cell and a size describe a rectangle that lies in the canonical
/// domain: at least one cell wide and high, with its last column and row in
/// range.
pub open spec fn spans(left: u16, top: u16, w: int, h: int) -> bool {
    spans_columns(left, w) && spans_rows(top, h)
}

/// The rectangle lies in the canonical domain and its size can be given as
/// cell indices.
pub open spec fn fits<R: Rect>(r: &R) -> bool {
    spans(r.spec_left(), r.spec_top(), r.spec_w(), r.spec_h())
}

/// The last row of a rectangle.
pub open spec fn spec_bottom<R: Rect>(r: &R) -> int {
    r.spec_top() + r.spec_h() - 1
}

/// The last column of a rectangle.
pub open spec fn spec_right<R: Rect>(r: &R) -> int {
    r.spec_left() + r.spec_w() - 1
}

/// A rectangle given by two opposite corners, in either order.
impl<V1: Vec2, V2: Vec2> Rect for (V1, V2) {
    open spec fn spec_top(&self) -> u16 {
        lower(self.0.spec_y(), self.1.spec_y())
    }

    open spec fn spec_left(&self) -> u16 {
        lower(self.0.spec_x(), self.1.spec_x())
    }

    open spec fn spec_h(&self) -> int {
        upper(self.0.spec_y(), self.1.spec_y()) - lower(self.0.spec_y(), self.1.spec_y()) + 1
    }

    open spec fn spec_w(&self) -> int {
        upper(self.0.spec_x(), self.1.spec_x()) - lower(self.0.spec_x(), self.1.spec_x()) + 1
    }

    open spec fn spec_new(left: u16, top: u16, w: u16, h: u16) -> Self {
        (V1::spec_new(left, top), V2::spec_new((left + w - 1) as u16, (top + h - 1) as u16))
    }

    open spec fn is_cell(&self) -> bool {
        self.0.is_cell() && self.1.is_cell()
    }

    open spec fn holds(left: u16, top: u16, w: u16, h: u16) -> bool {
        V1::holds(left, top) && V2::holds((left + w - 1) as u16, (top + h - 1) as u16)
    }

    fn top(&self) -> (r: u16) {
        let a: u16 = self.0.y();
        let b: u16 = self.1.y();
        if a <= b {
            a
        } else {
            b
        }
    }

    fn left(&self) -> (r: u16) {
        let a: u16 = self.0.x();
        let b: u16 = self.1.x();
        if a <= b {
            a
        } else {
            b
        }
    }

    fn h(&self) -> (r: u16) {
        let a: u16 = self.0.y();
        let b: u16 = self.1.y();
        if a <= b {
            b - a + 1
        } else {
            a - b + 1
        }
    }

    fn w(&self) -> (r: u16) {
        let a: u16 = self.0.x();
        let b: u16 = self.1.x();
        if a <= b {
            b - a + 1
        } else {
            a - b + 1
        }
    }

    fn new(left: u16, top: u16, w: u16, h: u16) -> (r: Self) {
        (V1::new(left, top), V2::new(left + (w - 1), top + (h - 1)))
    }

    fn in_bounds(&self) -> (ok: bool) {
        let x0: u16 = self.0.x();
        let x1: u16 = self.1.x();
        let y0: u16 = self.0.y();
        let y1: u16 = self.1.y();
        let dx: u16 = if x0 <= x1 {
            x1 - x0
        } else {
            x0 - x1
        };
        let dy: u16 = if y0 <= y1 {
            y1 - y0
        } else {
            y0 - y1
        };
        dx < u16::MAX && dy < u16::MAX
    }

    proof fn lemma_index_kept(left: u16, top: u16, w: u16, h: u16) {
        V1::lemma_index_kept(left, top);
        V2::lemma_index_kept((left + w - 1) as u16, (top + h - 1) as u16);
    }
}

/// A rectangle in the canonical representation.
pub type DefRect = (DefVec2, DefVec2);

/// The same rectangle in another representation: its left column, top row,
/// width and height are handed over.
pub fn convert_rect<T: Rect, U: Rect>(t: &T) -> (r: U)
    requires
        fits(t),
    ensures
        r == U::spec_new(t.spec_left(), t.spec_top(), t.spec_w() as u16, t.spec_h() as u16),
{
    U::new(t.left(), t.top(), t.w(), t.h())
}

/// The two corners of a rectangle may be given in either order: the left
/// column and the top row are the smaller components, and the size is the
/// same.
pub proof fn lemma_corner_order<V1: Vec2, V2: Vec2>(a: V1, b: V2)
    ensures
        (a, b).spec_left() == (b, a).spec_left(),
        (a, b).spec_top() == (b, a).spec_top(),
        (a, b).spec_w() == (b, a).spec_w(),
        (a, b).spec_h() == (b, a).spec_h(),
        (a, b).spec_left() <= a.spec_x() && (a, b).spec_left() <= b.spec_x(),
        (a, b).spec_top() <= a.spec_y() && (a, b).spec_top() <= b.spec_y(),
        (a, b).spec_left() == a.spec_x() || (a, b).spec_left() == b.spec_x(),
        (a, b).spec_top() == a.spec_y() || (a, b).spec_top() == b.spec_y(),
{
}

/// A rectangle given by two corners is at least one cell wide and high, and
/// its last column and row are the larger components of the corners.
pub proof fn lemma_corner_bounds<V1: Vec2, V2: Vec2>(a: V1, b: V2)
    ensures
        (a, b).spec_w() >= 1,
        (a, b).spec_h() >= 1,
        spec_right(&(a, b)) == upper(a.spec_x(), b.spec_x()),
        spec_bottom(&(a, b)) == upper(a.spec_y(), b.spec_y()),
{
}

/// The inclusive bounds of every rectangle: `right - left + 1` is the width
/// and `bottom - top + 1` is the height.
pub proof fn lemma_inclusive_bounds<R: Rect>(r: &R)
    ensures
        spec_right(r) - r.spec_left() + 1 == r.spec_w(),
        spec_bottom(r) - r.spec_top() + 1 == r.spec_h(),
{
}

/// Converting a rectangle to another representation keeps its left column,
/// top row, width and height, where the other representation holds its
/// corners; converting back then gives the same four values again.
pub proof fn lemma_rect_round_trip<A: Rect, B: Rect>(a: &A)
    requires
        fits(a),
        A::holds(a.spec_left(), a.spec_top(), a.spec_w() as u16, a.spec_h() as u16),
        B::holds(a.spec_left(), a.spec_top(), a.spec_w() as u16, a.spec_h() as u16),
    ensures
        ({
            let b = B::spec_new(a.spec_left(), a.spec_top(), a.spec_w() as u16, a.spec_h() as u16);
            let c = A::spec_new(b.spec_left(), b.spec_top(), b.spec_w() as u16, b.spec_h() as u16);
            &&& b.spec_left() == a.spec_left()
            &&& b.spec_top() == a.spec_top()
            &&& b.spec_w() == a.spec_w()
            &&& b.spec_h() == a.spec_h()
            &&& c.spec_left() == a.spec_left()
            &&& c.spec_top() == a.spec_top()
            &&& c.spec_w() == a.spec_w()
            &&& c.spec_h() == a.spec_h()
        }),
{
    B::lemma_index_kept(a.spec_left(), a.spec_top(), a.spec_w() as u16, a.spec_h() as u16);
    A::lemma_index_kept(a.spec_left(), a.spec_top(), a.spec_w() as u16, a.spec_h() as u16);
}

/// A rectangle given by its two corners in the canonical representation, top
/// left first, is the same value after a conversion to another representation
/// of two corners and back, where that representation holds the corners.
pub proof fn lemma_corner_rect_round_trip<V1: Vec2, V2: Vec2>(a: DefRect)
    requires
        a.0.0 <= a.1.0,
        a.0.1 <= a.1.1,
        fits(&a),
        <(V1, V2) as Rect>::holds(
            a.spec_left(),
            a.spec_top(),
            a.spec_w() as u16,
            a.spec_h() as u16,
        ),
    ensures
        ({
            let b = <(V1, V2) as Rect>::spec_new(
                a.spec_left(),
                a.spec_top(),
                a.spec_w() as u16,
                a.spec_h() as u16,
            );
            <DefRect as Rect>::spec_new(
                b.spec_left(),
                b.spec_top(),
                b.spec_w() as u16,
                b.spec_h() as u16,
            ) == a
        }),
{
    <(V1, V2) as Rect>::lemma_index_kept(
        a.spec_left(),
        a.spec_top(),
        a.spec_w() as u16,
        a.spec_h() as u16,
    );
}

} // verus!
