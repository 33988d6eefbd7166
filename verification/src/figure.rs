//! The shapes of a figure, stated over the value of its descriptor.

use vstd::prelude::*;
use hex_color::HexColor;
use crate::counts::{bump, position_sub, Tally};
use crate::descriptor::{LengthSpec, ProtoSpec};
use crate::shapes::{
    flat, Bar, Connector, DynamicSize, Label, Marker, Point, Rect, TextBaseline, Tick, Trapezoid,
    DEFAULT_LENGTH_SIZE, DEFAULT_PADDING, DEFAULT_SIZE_Y, DEFAULT_START_SYMBOL_X,
    DEFAULT_START_SYMBOL_Y, DEFAULT_STROKE_WIDTH, DEFAULT_SUB_PADDING, DEFAULT_TEXT_SIZE,
    DEFAULT_TICK_SIZE,
};
use crate::text::trimmed;

verus! {

/// Everything that a renderer needs to draw one figure. Later entries of a
/// sequence are drawn over earlier ones.
pub struct GeometryDocument {
    pub size: Point,
    pub background: HexColor,
    pub static_fields: Seq<Rect>,
    pub dynamic_fields: Seq<Trapezoid>,
    pub field_texts: Seq<Label>,
    pub field_ticks: Seq<Tick>,
    pub field_lengths: Seq<Bar>,
    pub wrap_lines: Seq<Connector>,
    pub start_symbol: Option<Marker>,
}

impl ProtoSpec {
    /// The background of field `k`: its own colour, or that of the style.
    pub open spec fn fill(self, k: int) -> HexColor {
        match self.fields[k].color {
            Some(c) => c,
            None => self.style.field_color,
        }
    }

    /// The rectangle of the fixed field `k`.
    pub open spec fn rect(self, k: int) -> Rect {
        Rect {
            background: self.fill(k),
            coordinates: Point { x: self.left(k), y: self.top(k) },
            size: Point { x: self.width(k), y: DEFAULT_SIZE_Y as int },
            stroke_color: self.style.text_color,
            stroke_width: DEFAULT_STROKE_WIDTH as int,
        }
    }

    /// The units of the first segment of a variable field: two thirds of
    /// the dynamic units, rounded up.
    pub open spec fn long_units(self) -> int {
        (2 * self.style.dyn_units + 2) / 3
    }

    /// The units of the second segment of a variable field: a third of the
    /// dynamic units, rounded down.
    pub open spec fn short_units(self) -> int {
        self.style.dyn_units as int / 3
    }

    /// The size of a variable field. Each segment gives up half of the gap.
    pub open spec fn dynamic_size(self) -> DynamicSize {
        DynamicSize {
            x1: self.long_units() * self.unit() - self.spacing() / 2,
            x2: self.short_units() * self.unit() - self.spacing() / 2,
            spacing: self.spacing(),
            delta: self.unit() / 2,
            y: DEFAULT_SIZE_Y as int,
        }
    }

    /// The shape of the variable field `k`.
    pub open spec fn trapezoid(self, k: int) -> Trapezoid {
        Trapezoid {
            background: self.fill(k),
            coordinates: Point { x: self.left(k), y: self.top(k) },
            size: self.dynamic_size(),
            stroke_color: self.style.text_color,
            stroke_width: DEFAULT_STROKE_WIDTH as int,
        }
    }

    /// The name of field `k`, centred in its rectangle or over the first
    /// segment of its variable shape.
    pub open spec fn label(self, k: int) -> Label {
        let half = if self.is_fixed(k) {
            self.width(k) / 2
        } else {
            self.dynamic_size().x1 / 2
        };
        Label {
            text: self.fields[k].name,
            coordinates: Point { x: self.left(k) + half, y: self.top(k) + DEFAULT_SIZE_Y / 2 },
            color: self.style.text_color,
            baseline: TextBaseline::Middle,
            height: DEFAULT_TEXT_SIZE as int,
        }
    }

    /// The tick mark of field `k` on its `t`-th inner boundary, `dy` below the top edge.
    pub open spec fn tick(self, k: int, t: int, dy: int) -> Tick {
        Tick {
            coordinates: Point { x: self.left(k) + t * self.unit(), y: self.top(k) + dy },
            size: Point { x: DEFAULT_STROKE_WIDTH as int, y: DEFAULT_TICK_SIZE as int },
            color: self.style.text_color,
        }
    }

    /// The two tick marks of field `k` on its `t`-th inner boundary: one
    /// on the top edge, one on the bottom edge.
    pub open spec fn tick_pair(self, k: int, t: int) -> Seq<Tick> {
        seq![self.tick(k, t, 0), self.tick(k, t, DEFAULT_SIZE_Y - DEFAULT_TICK_SIZE)]
    }

    /// The tick pairs of field `k`, the `j`-th on its inner boundary `j + 1`.
    pub open spec fn tick_pairs(self, k: int) -> spec_fn(int) -> Seq<Tick> {
        |j: int| self.tick_pair(k, j + 1)
    }

    /// The tick marks of field `k`: a pair on each inner boundary of a
    /// fixed field, none on a variable one.
    pub open spec fn ticks_of(self, k: int) -> Seq<Tick> {
        if self.is_fixed(k) {
            flat(self.units(k) - 1, self.tick_pairs(k))
        } else {
            Seq::empty()
        }
    }

    /// What the `i`-th drawn field adds to the rectangles.
    pub open spec fn static_parts(self) -> spec_fn(int) -> Seq<Rect> {
        |i: int|
            if self.is_fixed(self.drawn(i)) {
                seq![self.rect(self.drawn(i))]
            } else {
                Seq::empty()
            }
    }

    /// The rectangles of the fixed fields, as they are drawn.
    pub open spec fn static_fields(self) -> Seq<Rect> {
        flat(self.len(), self.static_parts())
    }

    /// What the `i`-th drawn field adds to the variable shapes.
    pub open spec fn dynamic_parts(self) -> spec_fn(int) -> Seq<Trapezoid> {
        |i: int|
            if self.is_fixed(self.drawn(i)) {
                Seq::empty()
            } else {
                seq![self.trapezoid(self.drawn(i))]
            }
    }

    /// The shapes of the variable fields, as they are drawn.
    pub open spec fn dynamic_fields(self) -> Seq<Trapezoid> {
        flat(self.len(), self.dynamic_parts())
    }

    /// What the `i`-th drawn field adds to the tick marks.
    pub open spec fn tick_parts(self) -> spec_fn(int) -> Seq<Tick> {
        |i: int| self.ticks_of(self.drawn(i))
    }

    /// The tick marks of all fields, as they are drawn.
    pub open spec fn field_ticks(self) -> Seq<Tick> {
        flat(self.len(), self.tick_parts())
    }

    /// What the `i`-th drawn field adds to the names.
    pub open spec fn label_parts(self) -> spec_fn(int) -> Seq<Label> {
        |i: int| seq![self.label(self.drawn(i))]
    }

    /// The names of all fields, as they are drawn.
    pub open spec fn labels(self) -> Seq<Label> {
        flat(self.len(), self.label_parts())
    }

    /// Whether a break separates the `i`-th drawn field from the one drawn before it.
    pub open spec fn breaks_before_drawn(self, i: int) -> bool {
        if self.elements.network_order {
            self.break_after(i - 1)
        } else {
            0 < i && self.break_after(self.drawn(i))
        }
    }

    /// How far the middle of a wrap line lies below the middle of the row
    /// that it leaves.
    pub open spec fn center_delta(self) -> int {
        DEFAULT_SUB_PADDING + DEFAULT_SIZE_Y / 2 + if self.elements.network_order {
            self.length_room()
        } else {
            self.position_room()
        }
    }

    /// The wrap line that leads to the `i`-th drawn field: from the right
    /// edge of the field drawn before it to its own left edge, at mid height.
    pub open spec fn connector(self, i: int) -> Connector {
        let from = self.drawn(i - 1);
        let to = self.drawn(i);
        Connector {
            start: Point { x: self.right(from), y: self.top(from) + DEFAULT_SIZE_Y / 2 },
            end: Point { x: self.left(to), y: self.top(to) + DEFAULT_SIZE_Y / 2 },
            center_delta: self.center_delta(),
            padding: DEFAULT_PADDING / 2,
            stroke: DEFAULT_STROKE_WIDTH as int,
            color: self.style.subtitle_color,
        }
    }

    /// What the `i`-th drawn field adds to the wrap lines.
    pub open spec fn wrap_parts(self) -> spec_fn(int) -> Seq<Connector> {
        |i: int|
            if self.elements.wrap_line && self.breaks_before_drawn(i) {
                seq![self.connector(i)]
            } else {
                Seq::empty()
            }
    }

    /// The wrap lines, one for each break where they are shown, as they are drawn.
    pub open spec fn wrap_lines(self) -> Seq<Connector> {
        flat(self.len(), self.wrap_parts())
    }

    /// The trimmed names of the variable fields among the first `k`
    /// fields, each with the number of its occurrences.
    pub open spec fn names_upto(self, k: int) -> Tally
        decreases k,
    {
        if k <= 0 {
            Seq::empty()
        } else {
            match self.fields[k - 1].length {
                LengthSpec::Fixed(_) => self.names_upto(k - 1),
                LengthSpec::Variable(name) => bump(self.names_upto(k - 1), trimmed(name)),
            }
        }
    }

    /// The position subtitle of the fixed field `k`: all that precedes the
    /// field, written at its leading edge above the row in network order,
    /// at its trailing edge below the row otherwise.
    pub open spec fn position_text(self, k: int) -> Label {
        let anchor = if self.elements.network_order {
            Point { x: self.left(k) + self.unit() / 2, y: self.top(k) - DEFAULT_SUB_PADDING }
        } else {
            Point {
                x: self.right(k) - self.unit() / 2,
                y: self.top(k) + DEFAULT_SIZE_Y + DEFAULT_SUB_PADDING,
            }
        };
        Label {
            text: position_sub(self.names_upto(k), self.offset_upto(k)),
            coordinates: anchor,
            color: self.style.subtitle_color,
            baseline: if self.elements.network_order {
                TextBaseline::Auto
            } else {
                TextBaseline::Hanging
            },
            height: DEFAULT_TEXT_SIZE as int,
        }
    }

    /// Whether field `k` may carry a position subtitle: every row may
    /// where inner subtitles are shown, else only the row of the first field.
    pub open spec fn position_kept(self, k: int) -> bool {
        self.elements.inner_subtitles || self.row(k) == self.row(0)
    }

    /// What field `k` adds to the position subtitles.
    pub open spec fn position_parts(self) -> spec_fn(int) -> Seq<Label> {
        |k: int|
            if self.is_fixed(k) && self.position_kept(k) {
                seq![self.position_text(k)]
            } else {
                Seq::empty()
            }
    }

    /// The position subtitles, from the first field to the last.
    pub open spec fn position_texts(self) -> Seq<Label> {
        if self.elements.field_position {
            flat(self.len(), self.position_parts())
        } else {
            Seq::empty()
        }
    }

    /// The middle line of the length bar of field `k`: below the row in
    /// network order, above it otherwise.
    pub open spec fn bar_y(self, k: int) -> int {
        if self.elements.network_order {
            self.top(k) + DEFAULT_SIZE_Y + DEFAULT_SUB_PADDING + DEFAULT_LENGTH_SIZE / 2
        } else {
            self.top(k) - DEFAULT_SUB_PADDING - DEFAULT_LENGTH_SIZE / 2
        }
    }

    /// The bar of the length subtitle of field `k`, as wide as the field.
    pub open spec fn length_bar(self, k: int) -> Bar {
        Bar {
            coordinates: Point { x: self.left(k), y: self.bar_y(k) },
            size: Point { x: self.width(k), y: DEFAULT_LENGTH_SIZE as int },
            stroke: DEFAULT_STROKE_WIDTH as int,
            color: self.style.subtitle_color,
        }
    }

    /// The text of the length subtitle of field `k`, centred on the far
    /// side of its bar.
    pub open spec fn length_text(self, k: int) -> Label {
        Label {
            text: self.fields[k].length.text(),
            coordinates: Point {
                x: self.left(k) + self.width(k) / 2,
                y: if self.elements.network_order {
                    self.bar_y(k) + DEFAULT_LENGTH_SIZE / 2
                } else {
                    self.bar_y(k) - DEFAULT_LENGTH_SIZE / 2
                },
            },
            color: self.style.subtitle_color,
            baseline: if self.elements.network_order {
                TextBaseline::Hanging
            } else {
                TextBaseline::Auto
            },
            height: DEFAULT_TEXT_SIZE as int,
        }
    }

    /// Whether field `k` may carry a length subtitle: every row may where
    /// inner subtitles are shown, else only the row of the last field.
    pub open spec fn length_kept(self, k: int) -> bool {
        self.elements.inner_subtitles || self.row(k) == self.row(self.len() - 1)
    }

    /// What the `j`-th field from the end adds to the bars of the length subtitles.
    pub open spec fn bar_parts(self) -> spec_fn(int) -> Seq<Bar> {
        |j: int|
            if self.length_kept(self.len() - 1 - j) {
                seq![self.length_bar(self.len() - 1 - j)]
            } else {
                Seq::empty()
            }
    }

    /// The bars of the length subtitles, from the last field to the first.
    pub open spec fn length_bars(self) -> Seq<Bar> {
        if self.elements.field_length {
            flat(self.len(), self.bar_parts())
        } else {
            Seq::empty()
        }
    }

    /// What the `j`-th field from the end adds to the texts of the length subtitles.
    pub open spec fn length_parts(self) -> spec_fn(int) -> Seq<Label> {
        |j: int|
            if self.length_kept(self.len() - 1 - j) {
                seq![self.length_text(self.len() - 1 - j)]
            } else {
                Seq::empty()
            }
    }

    /// The texts of the length subtitles, from the last field to the first.
    pub open spec fn length_texts(self) -> Seq<Label> {
        if self.elements.field_length {
            flat(self.len(), self.length_parts())
        } else {
            Seq::empty()
        }
    }

    /// The start marker: left of the first field and pointing left in
    /// network order, right of the first field and pointing right otherwise.
    pub open spec fn start_marker(self) -> Option<Marker> {
        if !self.elements.start_symbol {
            None
        } else if self.elements.network_order {
            Some(
                Marker {
                    coordinates: Point {
                        x: DEFAULT_PADDING - DEFAULT_SUB_PADDING,
                        y: DEFAULT_PADDING + DEFAULT_SIZE_Y / 2,
                    },
                    size: Point { x: -DEFAULT_START_SYMBOL_X, y: DEFAULT_START_SYMBOL_Y as int },
                    color: self.style.subtitle_color,
                },
            )
        } else {
            Some(
                Marker {
                    coordinates: Point {
                        x: self.right(0) + DEFAULT_SUB_PADDING,
                        y: self.top(0) + DEFAULT_SIZE_Y / 2,
                    },
                    size: Point {
                        x: DEFAULT_START_SYMBOL_X as int,
                        y: DEFAULT_START_SYMBOL_Y as int,
                    },
                    color: self.style.subtitle_color,
                },
            )
        }
    }

    /// The figure of this descriptor.
    pub open spec fn geometry(self) -> GeometryDocument {
        GeometryDocument {
            size: Point { x: self.canvas_width(), y: self.canvas_height() },
            background: self.style.background_color,
            static_fields: self.static_fields(),
            dynamic_fields: self.dynamic_fields(),
            field_texts: self.labels() + self.position_texts() + self.length_texts(),
            field_ticks: self.field_ticks(),
            field_lengths: self.length_bars(),
            wrap_lines: self.wrap_lines(),
            start_symbol: self.start_marker(),
        }
    }
}

} // verus!
