//! The shapes of a figure and their mathematical values.
//!
//! Every coordinate and size is a whole number of sub-units, [`SCALE`] of
//! which make one engine unit. With forty sub-units to the unit each half,
//! quarter, eighth, tenth and twentieth of a unit width is exact.

use vstd::prelude::*;
use hex_color::HexColor;

verus! {

/// Sub-units per engine unit.
pub const SCALE: i64 = 40;

/// Margin round the drawing: 50 units.
pub const DEFAULT_PADDING: i64 = 2000;

/// Width of strokes and tick marks: 2 units.
pub const DEFAULT_STROKE_WIDTH: i64 = 80;

/// Height of a field: 80 units.
pub const DEFAULT_SIZE_Y: i64 = 3200;

/// Height of a tick mark: 20 units.
pub const DEFAULT_TICK_SIZE: i64 = 800;

/// Gap between a field and its subtitles: 10 units.
pub const DEFAULT_SUB_PADDING: i64 = 400;

/// Height of a length bar: 10 units.
pub const DEFAULT_LENGTH_SIZE: i64 = 400;

/// Height of text: 16 units.
pub const DEFAULT_TEXT_SIZE: i64 = 640;

/// Width of the start symbol: 10 units.
pub const DEFAULT_START_SYMBOL_X: i64 = 400;

/// Height of the start symbol: 20 units.
pub const DEFAULT_START_SYMBOL_Y: i64 = 800;

/// Nominal gap between the two segments of a variable field: 10 units.
pub const DEFAULT_DYN_SPACING_VALUE: i64 = 400;

/// How a text sits on its anchor.
#[derive(Debug, Clone, Copy, PartialEq, Eq)]
pub enum TextBaseline {
    Auto,
    Middle,
    Hanging,
}

/// A pair of sub-unit values: a point or a size.
#[derive(Debug, Clone, Copy, PartialEq, Eq)]
pub struct Components {
    pub x: i64,
    pub y: i64,
}

/// The mathematical value of [`Components`].
pub struct Point {
    pub x: int,
    pub y: int,
}

impl View for Components {
    type V = Point;

    open spec fn view(&self) -> Point {
        Point { x: self.x as int, y: self.y as int }
    }
}

/// The size of a variable field: two segments, the gap between them, the
/// skew of the cut and the height.
#[derive(Debug, Clone, Copy, PartialEq, Eq)]
pub struct ComponentsDynamic {
    pub x1: i64,
    pub x2: i64,
    pub spacing: i64,
    pub delta: i64,
    pub y: i64,
}

/// The mathematical value of [`ComponentsDynamic`].
pub struct DynamicSize {
    pub x1: int,
    pub x2: int,
    pub spacing: int,
    pub delta: int,
    pub y: int,
}

impl View for ComponentsDynamic {
    type V = DynamicSize;

    open spec fn view(&self) -> DynamicSize {
        DynamicSize {
            x1: self.x1 as int,
            x2: self.x2 as int,
            spacing: self.spacing as int,
            delta: self.delta as int,
            y: self.y as int,
        }
    }
}

/// The rectangle of a field of fixed length.
#[derive(Debug, Clone, Copy, PartialEq, Eq)]
pub struct StaticFields {
    pub background: HexColor,
    pub coordinates: Components,
    pub size: Components,
    pub stroke_color: HexColor,
    pub stroke_width: i64,
}

/// The mathematical value of [`StaticFields`].
pub struct Rect {
    pub background: HexColor,
    pub coordinates: Point,
    pub size: Point,
    pub stroke_color: HexColor,
    pub stroke_width: int,
}

impl View for StaticFields {
    type V = Rect;

    open spec fn view(&self) -> Rect {
        Rect {
            background: self.background,
            coordinates: self.coordinates@,
            size: self.size@,
            stroke_color: self.stroke_color,
            stroke_width: self.stroke_width as int,
        }
    }
}

/// The two-segment shape of a field of variable length.
#[derive(Debug, Clone, Copy, PartialEq, Eq)]
pub struct DynamicFields {
    pub background: HexColor,
    pub coordinates: Components,
    pub size: ComponentsDynamic,
    pub stroke_color: HexColor,
    pub stroke_width: i64,
}

/// The mathematical value of [`DynamicFields`].
pub struct Trapezoid {
    pub background: HexColor,
    pub coordinates: Point,
    pub size: DynamicSize,
    pub stroke_color: HexColor,
    pub stroke_width: int,
}

impl View for DynamicFields {
    type V = Trapezoid;

    open spec fn view(&self) -> Trapezoid {
        Trapezoid {
            background: self.background,
            coordinates: self.coordinates@,
            size: self.size@,
            stroke_color: self.stroke_color,
            stroke_width: self.stroke_width as int,
        }
    }
}

/// A text: a field's name or a subtitle.
#[derive(Debug, PartialEq, Eq)]
pub struct FieldText {
    pub text: String,
    pub coordinates: Components,
    pub color: HexColor,
    pub baseline: TextBaseline,
    pub height: i64,
}

/// The mathematical value of [`FieldText`].
pub struct Label {
    pub text: Seq<char>,
    pub coordinates: Point,
    pub color: HexColor,
    pub baseline: TextBaseline,
    pub height: int,
}

impl View for FieldText {
    type V = Label;

    open spec fn view(&self) -> Label {
        Label {
            text: self.text@,
            coordinates: self.coordinates@,
            color: self.color,
            baseline: self.baseline,
            height: self.height as int,
        }
    }
}

/// A tick mark on the edge of a field of fixed length.
#[derive(Debug, Clone, Copy, PartialEq, Eq)]
pub struct FieldTicks {
    pub coordinates: Components,
    pub size: Components,
    pub color: HexColor,
}

/// The mathematical value of [`FieldTicks`].
pub struct Tick {
    pub coordinates: Point,
    pub size: Point,
    pub color: HexColor,
}

impl View for FieldTicks {
    type V = Tick;

    open spec fn view(&self) -> Tick {
        Tick { coordinates: self.coordinates@, size: self.size@, color: self.color }
    }
}

/// The bar that spans a field in its length subtitle.
#[derive(Debug, Clone, Copy, PartialEq, Eq)]
pub struct LengthBar {
    pub coordinates: Components,
    pub size: Components,
    pub stroke: i64,
    pub color: HexColor,
}

/// The mathematical value of [`LengthBar`].
pub struct Bar {
    pub coordinates: Point,
    pub size: Point,
    pub stroke: int,
    pub color: HexColor,
}

impl View for LengthBar {
    type V = Bar;

    open spec fn view(&self) -> Bar {
        Bar {
            coordinates: self.coordinates@,
            size: self.size@,
            stroke: self.stroke as int,
            color: self.color,
        }
    }
}

/// The line that leads from the end of one row to the start of the next.
#[derive(Debug, Clone, Copy, PartialEq, Eq)]
pub struct WrapLine {
    pub start: Components,
    pub end: Components,
    pub center_delta: i64,
    pub padding: i64,
    pub stroke: i64,
    pub color: HexColor,
}

/// The mathematical value of [`WrapLine`].
pub struct Connector {
    pub start: Point,
    pub end: Point,
    pub center_delta: int,
    pub padding: int,
    pub stroke: int,
    pub color: HexColor,
}

impl View for WrapLine {
    type V = Connector;

    open spec fn view(&self) -> Connector {
        Connector {
            start: self.start@,
            end: self.end@,
            center_delta: self.center_delta as int,
            padding: self.padding as int,
            stroke: self.stroke as int,
            color: self.color,
        }
    }
}

/// The marker at the logical start of the protocol.
#[derive(Debug, Clone, Copy, PartialEq, Eq)]
pub struct StartSymbol {
    pub coordinates: Components,
    pub size: Components,
    pub color: HexColor,
}

/// The mathematical value of [`StartSymbol`].
pub struct Marker {
    pub coordinates: Point,
    pub size: Point,
    pub color: HexColor,
}

impl View for StartSymbol {
    type V = Marker;

    open spec fn view(&self) -> Marker {
        Marker { coordinates: self.coordinates@, size: self.size@, color: self.color }
    }
}

/// The value of what `o` holds, if it holds anything.
pub open spec fn view_of<T: View>(o: Option<T>) -> Option<T::V> {
    match o {
        Some(t) => Some(t@),
        None => None,
    }
}

/// The values of the elements of `s`, in order.
pub open spec fn views<T: View>(s: Seq<T>) -> Seq<T::V> {
    s.map_values(|t: T| t@)
}

/// The values of a sequence with one more element are those of the
/// sequence with one more value.
pub proof fn lemma_views_push<T: View>(s: Seq<T>, t: T)
    ensures
        views(s.push(t)) == views(s).push(t@),
{
    assert(views(s.push(t)) =~= views(s).push(t@));
}

/// The concatenation of `f(0)`, `f(1)`, ..., `f(n - 1)`.
pub open spec fn flat<T>(n: int, f: spec_fn(int) -> Seq<T>) -> Seq<T>
    decreases n,
{
    if n <= 0 {
        Seq::empty()
    } else {
        flat(n - 1, f) + f(n - 1)
    }
}

/// Parts that are empty add nothing to a concatenation.
pub proof fn lemma_flat_empty_tail<T>(a: int, b: int, f: spec_fn(int) -> Seq<T>)
    requires
        0 <= a <= b,
        forall|j: int| a <= j < b ==> (#[trigger] f(j)).len() == 0,
    ensures
        flat(b, f) == flat(a, f),
    decreases b - a,
{
    if a < b {
        lemma_flat_empty_tail(a, b - 1, f);
        assert(flat(b, f) =~= flat(b - 1, f));
    }
}

/// Where every part has `c` elements, the concatenation of `n` parts has
/// `n * c` elements, and the `r`-th element of part `j` is its element
/// `j * c + r`.
pub proof fn lemma_flat_uniform<T>(n: int, f: spec_fn(int) -> Seq<T>, c: int, j: int, r: int)
    requires
        0 <= j < n,
        0 <= r < c,
        forall|i: int| 0 <= i < n ==> (#[trigger] f(i)).len() == c,
    ensures
        flat(n, f).len() == n * c,
        0 <= j * c + r < n * c,
        flat(n, f)[j * c + r] == f(j)[r],
    decreases n,
{
    lemma_flat_uniform_len(n - 1, f, c);
    assert((n - 1) * c + c == n * c) by (nonlinear_arith);
    assert(0 <= j * c && j * c + c <= n * c) by (nonlinear_arith)
        requires
            0 <= j < n,
            0 < c,
    ;
    if j < n - 1 {
        lemma_flat_uniform(n - 1, f, c, j, r);
    } else {
        assert(f(n - 1).len() == c);
    }
}

/// Where every part has `c` elements, the concatenation of `n` parts has `n * c`.
pub proof fn lemma_flat_uniform_len<T>(n: int, f: spec_fn(int) -> Seq<T>, c: int)
    requires
        0 <= n,
        forall|i: int| 0 <= i < n ==> (#[trigger] f(i)).len() == c,
    ensures
        flat(n, f).len() == n * c,
    decreases n,
{
    if n > 0 {
        lemma_flat_uniform_len(n - 1, f, c);
        assert(f(n - 1).len() == c);
        assert((n - 1) * c + c == n * c) by (nonlinear_arith);
    } else {
        assert(n * c == 0) by (nonlinear_arith)
            requires
                n == 0,
        ;
    }
}

} // verus!
