//! The row planner and the alignment pass.
//!
//! The planner walks the fields as they are drawn, with a cursor that
//! starts at the margin, moves right by each field and drops to the start
//! of the next row at each break. The alignment pass then moves each row
//! right until it ends where the widest row ends, in figures that are not
//! in network order.

use vstd::prelude::*;
use crate::descriptor::{FieldLength, ProtoDescriptor, ProtoSpec};
use crate::shapes::{
    view_of, Components, Connector, Point, WrapLine, DEFAULT_LENGTH_SIZE, DEFAULT_PADDING,
    DEFAULT_SIZE_Y, DEFAULT_STROKE_WIDTH, DEFAULT_SUB_PADDING, DEFAULT_TEXT_SIZE, SCALE,
};

verus! {

/// The place of one field: its left and top edge, its width, its row, and
/// the wrap line that leads to it, if one does.
#[derive(Debug, Clone, Copy)]
pub struct Slot {
    pub x: i64,
    pub y: i64,
    pub width: i64,
    pub row: usize,
    pub wrap: Option<WrapLine>,
}

/// What the planner hands to the alignment pass: the place of each field as
/// it is drawn, the right end of each row, the right end of the widest
/// row, and where the cursor came to rest.
#[derive(Debug)]
pub struct RowPlan {
    pub slots: Vec<Slot>,
    pub row_sizes: Vec<i64>,
    pub max_x: i64,
    pub x: i64,
    pub y: i64,
}

impl ProtoSpec {
    /// Where the cursor stands before field `k` is drawn.
    pub open spec fn cursor(self, k: int) -> int {
        DEFAULT_PADDING + if self.elements.network_order {
            self.before(k)
        } else {
            self.after(k)
        }
    }

    /// The wrap line that leaves a row at the cursor `(x, y)`, where wrap
    /// lines are shown: it ends at the margin, one row further down.
    pub open spec fn wrap_from(self, x: int, y: int) -> Option<Connector> {
        if self.elements.wrap_line {
            Some(
                Connector {
                    start: Point { x, y: y + DEFAULT_SIZE_Y / 2 },
                    end: Point {
                        x: DEFAULT_PADDING as int,
                        y: y + self.pitch() + DEFAULT_SIZE_Y / 2,
                    },
                    center_delta: self.center_delta(),
                    padding: DEFAULT_PADDING / 2,
                    stroke: DEFAULT_STROKE_WIDTH as int,
                    color: self.style.subtitle_color,
                },
            )
        } else {
            None
        }
    }

    /// The place of the `i`-th drawn field as the planner leaves it.
    pub open spec fn slot_planned(self, i: int, s: Slot) -> bool {
        let k = self.drawn(i);
        let from = self.drawn(i - 1);
        &&& s.x == self.cursor(k)
        &&& s.y == self.top(k)
        &&& s.width == self.width(k)
        &&& s.row == self.row(k)
        &&& view_of(s.wrap) == if self.breaks_before_drawn(i) {
            self.wrap_from(self.cursor(from) + self.width(from), self.top(from))
        } else {
            None
        }
    }

    /// The plan of the whole figure.
    pub open spec fn planned(self, plan: RowPlan) -> bool {
        &&& plan.slots@.len() == self.len()
        &&& forall|i: int| 0 <= i < self.len() ==> self.slot_planned(i, #[trigger] plan.slots@[i])
        &&& plan.row_sizes@.len() == self.rows()
        &&& forall|k: int|
            0 <= k < self.len() ==> plan.row_sizes@[#[trigger] self.row(k)] == DEFAULT_PADDING
                + self.row_width(k)
        &&& plan.max_x == DEFAULT_PADDING + self.widest()
        &&& plan.x == self.cursor(self.drawn(self.len() - 1)) + self.width(
            self.drawn(self.len() - 1),
        )
        &&& plan.y == self.top(self.drawn(self.len() - 1))
    }

    /// The place of the `i`-th drawn field in the finished figure.
    pub open spec fn slot_aligned(self, i: int, s: Slot) -> bool {
        let k = self.drawn(i);
        &&& s.x == self.left(k)
        &&& s.y == self.top(k)
        &&& s.width == self.width(k)
        &&& s.row == self.row(k)
        &&& view_of(s.wrap) == if self.elements.wrap_line && self.breaks_before_drawn(i) {
            Some(self.connector(i))
        } else {
            None
        }
    }

    /// The places of all fields in the finished figure.
    pub open spec fn aligned(self, slots: Seq<Slot>) -> bool {
        &&& slots.len() == self.len()
        &&& forall|i: int| 0 <= i < self.len() ==> self.slot_aligned(i, #[trigger] slots[i])
    }
}

/// The width of one unit, in sub-units.
pub fn unit_of(descriptor: &ProtoDescriptor) -> (unit: i64)
    requires
        descriptor@.valid(),
        descriptor@.drawable(),
    ensures
        unit == descriptor@.unit(),
{
    proof {
        descriptor@.lemma_within_widest(0);
    }
    SCALE * (descriptor.style.unit_width as i64)
}

/// The width of field `k`, where `unit` is the width of one unit.
pub fn width_of(descriptor: &ProtoDescriptor, k: usize, unit: i64) -> (width: i64)
    requires
        descriptor@.valid(),
        descriptor@.drawable(),
        k < descriptor@.len(),
        unit == descriptor@.unit(),
    ensures
        width == descriptor@.width(k as int),
{
    proof {
        descriptor@.lemma_within_widest(k as int);
        let u = descriptor@.units(k as int);
        let w = descriptor@.unit();
        assert(u <= u * w) by (nonlinear_arith)
            requires
                u >= 1,
                w >= 1,
        ;
    }
    match &descriptor.fields[k].length {
        FieldLength::Fixed(length) => (*length as i64) * unit,
        FieldLength::Variable(_) => (descriptor.style.dyn_units as i64) * unit,
    }
}

/// The distance from the top of one row to the top of the next: the
/// height of a field and the room for what lies between two rows.
pub fn pitch_of(descriptor: &ProtoDescriptor) -> (pitch: i64)
    ensures
        pitch == descriptor@.pitch(),
{
    let elements = &descriptor.elements;
    let mut pitch: i64 = DEFAULT_SIZE_Y;
    if elements.wrap_line || (elements.inner_subtitles && (elements.field_length
        || elements.field_position)) {
        pitch += 2 * DEFAULT_SUB_PADDING;
    }
    if elements.inner_subtitles && elements.field_length {
        pitch += DEFAULT_LENGTH_SIZE + DEFAULT_TEXT_SIZE + DEFAULT_SUB_PADDING / 2;
    }
    if elements.inner_subtitles && elements.field_position {
        pitch += DEFAULT_TEXT_SIZE + DEFAULT_SUB_PADDING / 2;
    }
    pitch
}

/// Create a wrap line if needed: moves the cursor to the start of the
/// next row and returns the line that leads there, where wrap lines are shown.
pub fn wrap_line(descriptor: &ProtoDescriptor, x: &mut i64, y: &mut i64) -> (line: Option<
    WrapLine,
>)
    requires
        *old(y) + descriptor@.pitch() + DEFAULT_SIZE_Y / 2 <= i64::MAX,
    ensures
        *final(x) == DEFAULT_PADDING,
        *final(y) == *old(y) + descriptor@.pitch(),
        view_of(line) == descriptor@.wrap_from(*old(x) as int, *old(y) as int),
{
    let elements = &descriptor.elements;
    let start = Components { x: *x, y: *y + DEFAULT_SIZE_Y / 2 };
    // Delta from start Y to center of the line
    let mut center_delta: i64 = DEFAULT_SUB_PADDING + DEFAULT_SIZE_Y / 2;
    if elements.network_order {
        if elements.inner_subtitles && elements.field_length {
            center_delta += DEFAULT_LENGTH_SIZE + DEFAULT_TEXT_SIZE + DEFAULT_SUB_PADDING / 2;
        }
    } else {
        if elements.inner_subtitles && elements.field_position {
            center_delta += DEFAULT_TEXT_SIZE + DEFAULT_SUB_PADDING / 2;
        }
    }

    // Add new line with subtitle spacing if needed
    *y = *y + pitch_of(descriptor);
    *x = DEFAULT_PADDING;

    let end = Components { x: *x, y: *y + DEFAULT_SIZE_Y / 2 };

    if elements.wrap_line {
        Some(
            WrapLine {
                start,
                end,
                center_delta,
                padding: DEFAULT_PADDING / 2,
                stroke: DEFAULT_STROKE_WIDTH,
                color: descriptor.style.subtitle_color,
            },
        )
    } else {
        None
    }
}

/// The row planner: places every field as it is drawn and notes where each row ends.
pub fn plan_rows(descriptor: &ProtoDescriptor) -> (plan: RowPlan)
    requires
        descriptor@.valid(),
        descriptor@.drawable(),
    ensures
        descriptor@.planned(plan),
{
    let ghost d = descriptor@;
    let n: usize = descriptor.fields.len();
    let network: bool = descriptor.elements.network_order;
    let unit: i64 = unit_of(descriptor);
    let mut slots: Vec<Slot> = Vec::new();
    let mut row_sizes: Vec<i64> = Vec::new();
    let mut x: i64 = DEFAULT_PADDING;
    let mut y: i64 = DEFAULT_PADDING;
    let mut max_x: i64 = 0;
    let mut row: usize = 0;
    let mut i: usize = 0;
    proof {
        d.lemma_within_widest(0);
    }
    while i < n
        invariant
            d == descriptor@,
            d.valid(),
            d.drawable(),
            n == d.len(),
            network == d.elements.network_order,
            unit == d.unit(),
            i <= n,
            slots@.len() == i,
            forall|j: int| 0 <= j < i ==> d.slot_planned(j, #[trigger] slots@[j]),
            i == 0 ==> x == DEFAULT_PADDING && y == DEFAULT_PADDING && row == 0 && max_x == 0,
            i > 0 ==> x == d.cursor(d.drawn(i - 1)) + d.width(d.drawn(i - 1)),
            i > 0 ==> y == d.top(d.drawn(i - 1)),
            i > 0 ==> row == d.row(d.drawn(i - 1)),
            row <= i,
            row_sizes@.len() == row,
            forall|j: int|
                0 <= j < i ==> 0 <= #[trigger] d.row(d.drawn(j)) <= row,
            forall|j: int|
                0 <= j < i && d.row(d.drawn(j)) < row ==> row_sizes@[#[trigger] d.row(d.drawn(j))]
                    == DEFAULT_PADDING + d.row_width(d.drawn(j)),
            forall|j: int|
                0 <= j < i && d.row(d.drawn(j)) == row ==> #[trigger] d.row_width(d.drawn(j))
                    == d.row_width(d.drawn(i - 1)),
            max_x <= DEFAULT_PADDING + d.widest(),
            forall|r: int| 0 <= r < row ==> #[trigger] row_sizes@[r] <= max_x,
            i > 0 ==> x <= max_x,
        decreases n - i,
    {
        let k: usize = if network {
            i
        } else {
            n - 1 - i
        };
        let ghost prev = d.drawn(i - 1);
        proof {
            assert(k == d.drawn(i as int));
            d.lemma_within_widest(k as int);
            d.lemma_inside_canvas(k as int);
            d.lemma_pitch_bounds();
            if i > 0 {
                d.lemma_within_widest(prev);
                d.lemma_inside_canvas(prev);
            }
        }
        let breaks: bool = i > 0 && if network {
            descriptor.fields[k - 1].wrap
        } else {
            descriptor.fields[k].wrap
        };
        assert(breaks == d.breaks_before_drawn(i as int));
        let mut wrap: Option<WrapLine> = None;
        if breaks {
            proof {
                // the row that ends here is as wide as the cursor has come
                assert(x == DEFAULT_PADDING + d.row_width(prev));
                assert(d.row(k as int) == d.row(prev) + 1);
                assert((d.row(prev) + 1) * d.pitch() == d.row(prev) * d.pitch() + d.pitch())
                    by (nonlinear_arith);
            }
            row_sizes.push(x);
            wrap = wrap_line(descriptor, &mut x, &mut y);
            row += 1;
            assert(y == d.top(prev) + d.pitch());
        } else {
            proof {
                if i > 0 {
                    assert(d.row(k as int) == d.row(prev));
                    if network {
                        d.lemma_row_width_step(prev);
                    } else {
                        d.lemma_row_width_step(k as int);
                    }
                } else {
                    assert(d.breaks_upto(0) == 0);
                    assert(!d.break_after(n - 1));
                    assert(d.row(k as int) == 0);
                    assert(0 * d.pitch() == 0);
                }
            }
        }
        assert(row == d.row(k as int));
        assert(y == d.top(k as int));
        assert(x == d.cursor(k as int));
        let width: i64 = width_of(descriptor, k, unit);
        let slot = Slot { x, y, width, row, wrap };
        assert(d.slot_planned(i as int, slot));
        slots.push(slot);
        x = x + width;
        if x > max_x {
            max_x = x;
        }
        i += 1;
    }
    proof {
        let last = d.drawn(n - 1);
        d.lemma_within_widest(last);
        assert(x == DEFAULT_PADDING + d.row_width(last));
    }
    row_sizes.push(x);
    proof {
        let top = d.lemma_widest_attained(d.len());
        assert(top == d.drawn(d.drawn(top)));
        assert(row_sizes@[d.row(d.drawn(d.drawn(top)))] == DEFAULT_PADDING + d.row_width(top));
        assert forall|k: int| 0 <= k < d.len() implies row_sizes@[#[trigger] d.row(k)]
            == DEFAULT_PADDING + d.row_width(k) by {
            let j = d.drawn(k);
            assert(k == d.drawn(j));
            assert(0 <= d.row(d.drawn(j)) <= row);
        }
        assert(row + 1 == d.rows());
    }
    RowPlan { slots, row_sizes, max_x, x, y }
}

impl ProtoSpec {
    /// A break puts the field drawn after it one row below the field drawn before it.
    pub proof fn lemma_break_drops(self, i: int)
        requires
            0 <= i < self.len(),
            self.breaks_before_drawn(i),
        ensures
            0 < i,
            self.row(self.drawn(i)) == self.row(self.drawn(i - 1)) + 1,
            self.top(self.drawn(i)) == self.top(self.drawn(i - 1)) + self.pitch(),
    {
        let r = self.row(self.drawn(i - 1));
        assert((r + 1) * self.pitch() == r * self.pitch() + self.pitch()) by (nonlinear_arith);
    }
}

/// The alignment pass: in network order every row already starts at the
/// margin; otherwise each row moves right by what it lacks to the widest one.
pub fn align_rows(descriptor: &ProtoDescriptor, plan: &RowPlan) -> (slots: Vec<Slot>)
    requires
        descriptor@.valid(),
        descriptor@.drawable(),
        descriptor@.planned(*plan),
    ensures
        descriptor@.aligned(slots@),
{
    let ghost d = descriptor@;
    let n: usize = plan.slots.len();
    let mut slots: Vec<Slot> = Vec::new();
    let mut i: usize = 0;
    while i < n
        invariant
            d == descriptor@,
            d.valid(),
            d.drawable(),
            d.planned(*plan),
            n == d.len(),
            i <= n,
            slots@.len() == i,
            forall|j: int| 0 <= j < i ==> d.slot_aligned(j, #[trigger] slots@[j]),
        decreases n - i,
    {
        let mut slot: Slot = plan.slots[i];
        let ghost k = d.drawn(i as int);
        proof {
            assert(d.slot_planned(i as int, plan.slots@[i as int]));
            d.lemma_within_widest(k);
            d.lemma_inside_canvas(k);
            d.lemma_row_bounds(k);
            assert(plan.row_sizes@[d.row(k)] == DEFAULT_PADDING + d.row_width(k));
            if d.breaks_before_drawn(i as int) {
                d.lemma_break_drops(i as int);
                let from = d.drawn(i - 1);
                assert(d.slot_planned(i - 1, plan.slots@[i - 1]));
                d.lemma_within_widest(from);
                d.lemma_inside_canvas(from);
                d.lemma_row_bounds(from);
                assert(plan.row_sizes@[d.row(from)] == DEFAULT_PADDING + d.row_width(from));
            }
        }
        if !descriptor.elements.network_order {
            let shift: i64 = plan.max_x - plan.row_sizes[slot.row];
            slot.x = slot.x + shift;
            match slot.wrap {
                Some(line) => {
                    let from_shift: i64 = plan.max_x - plan.row_sizes[plan.slots[i - 1].row];
                    let start = Components { x: line.start.x + from_shift, y: line.start.y };
                    let end = Components { x: line.end.x + shift, y: line.end.y };
                    slot.wrap = Some(
                        WrapLine {
                            start,
                            end,
                            center_delta: line.center_delta,
                            padding: line.padding,
                            stroke: line.stroke,
                            color: line.color,
                        },
                    );
                },
                None => {},
            }
        }
        assert(d.slot_aligned(i as int, slot));
        slots.push(slot);
        i += 1;
    }
    slots
}

/// Tells whether the figure of a valid descriptor fits the machine: its
/// canvas in `i64` sub-units and, where position subtitles are shown, the
/// sum of its fixed lengths in `usize`.
pub fn fits(descriptor: &ProtoDescriptor) -> (ok: bool)
    requires
        descriptor@.valid(),
    ensures
        ok == descriptor@.drawable(),
{
    let ghost d = descriptor@;
    let n: usize = descriptor.fields.len();
    proof {
        d.lemma_within_widest(0);
        d.lemma_pitch_bounds();
    }
    if descriptor.style.unit_width as u64 > (i64::MAX / SCALE) as u64 {
        return false;
    }
    let unit: i64 = SCALE * (descriptor.style.unit_width as i64);
    let positions: bool = descriptor.elements.field_position;
    let mut before: i64 = 0;
    let mut widest: i64 = 0;
    let mut breaks: usize = 0;
    let mut offset: usize = 0;
    let mut k: usize = 0;
    while k < n
        invariant
            d == descriptor@,
            d.valid(),
            n == d.len(),
            unit == d.unit(),
            k <= n,
            k < n ==> before == d.before(k as int),
            breaks == d.breaks_upto(k as int),
            breaks <= k,
            positions == d.elements.field_position,
            positions ==> offset == d.offset_upto(k as int),
            0 <= widest <= d.widest(),
            forall|j: int|
                0 <= j < k && (d.breaks_upto(j) < breaks || k == n) ==> #[trigger] d.row_width(j)
                    <= widest,
            forall|j: int|
                0 <= j < k < n && d.breaks_upto(j) == breaks ==> #[trigger] d.row_width(j)
                    == d.row_width(k as int),
        decreases n - k,
    {
        proof {
            d.lemma_within_widest(k as int);
            let u = d.units(k as int);
            assert(u <= u * d.unit()) by (nonlinear_arith)
                requires
                    u >= 1,
                    d.unit() >= 1,
            ;
            d.lemma_offset_monotone(k + 1, n as int);
        }
        let units: usize = match &descriptor.fields[k].length {
            FieldLength::Fixed(length) => {
                if positions {
                    match offset.checked_add(*length) {
                        Some(sum) => {
                            offset = sum;
                        },
                        None => {
                            return false;
                        },
                    }
                }
                *length
            },
            FieldLength::Variable(_) => descriptor.style.dyn_units,
        };
        if units as u64 > i64::MAX as u64 {
            return false;
        }
        let width: i64 = match (units as i64).checked_mul(unit) {
            Some(width) => width,
            None => {
                return false;
            },
        };
        let reach: i64 = match before.checked_add(width) {
            Some(reach) => reach,
            None => {
                return false;
            },
        };
        proof {
            assert forall|j: int| 0 <= j <= k implies #[trigger] d.breaks_upto(j)
                <= d.breaks_upto(k as int) by {
                d.lemma_breaks_monotone(j, k as int);
            }
        }
        if k + 1 < n && descriptor.fields[k].wrap {
            // a row ends here
            if reach > widest {
                widest = reach;
            }
            before = 0;
            breaks += 1;
        } else if k + 1 < n {
            proof {
                d.lemma_row_width_step(k as int);
            }
            before = reach;
        } else {
            if reach > widest {
                widest = reach;
            }
        }
        k += 1;
    }
    proof {
        let top = d.lemma_widest_attained(d.len());
        assert(!d.break_after(n - 1));
        assert forall|j: int| 0 <= j < n implies #[trigger] d.breaks_upto(j) <= d.breaks_upto(
            n - 1,
        ) by {
            d.lemma_breaks_monotone(j, n - 1);
        }
        assert(d.row_width(top) <= widest);
        assert((breaks as int) * d.pitch() >= breaks) by (nonlinear_arith)
            requires
                breaks >= 0,
                d.pitch() >= 1,
        ;
    }
    if widest > i64::MAX - 2 * DEFAULT_PADDING {
        return false;
    }
    if breaks as u64 > i64::MAX as u64 {
        return false;
    }
    let pitch: i64 = pitch_of(descriptor);
    match (breaks as i64).checked_mul(pitch) {
        Some(drop) => drop <= i64::MAX - 2 * DEFAULT_PADDING - DEFAULT_SIZE_Y,
        None => false,
    }
}

} // verus!
