//! What a figure is, stated over the value of its descriptor.
//!
//! Fields are numbered as the descriptor lists them. A row is a run of
//! fields between two breaks; a break follows every field that has `wrap`
//! set, except the last. In network order the rows run top to bottom and
//! the fields of a row left to right; otherwise both run the other way and
//! every row ends at the right edge of the widest one.

use vstd::prelude::*;
use crate::descriptor::{LengthSpec, ProtoSpec};
use crate::shapes::{
    DEFAULT_DYN_SPACING_VALUE, DEFAULT_LENGTH_SIZE, DEFAULT_PADDING, DEFAULT_SIZE_Y,
    DEFAULT_SUB_PADDING, DEFAULT_TEXT_SIZE, SCALE,
};

verus! {

impl ProtoSpec {
    /// The number of fields.
    pub open spec fn len(self) -> int {
        self.fields.len() as int
    }

    /// The unit width, the dynamic units and the fields are as a figure needs them.
    pub open spec fn valid(self) -> bool {
        &&& self.style.unit_width >= 10
        &&& self.style.dyn_units >= 3
        &&& self.fields.len() > 0
        &&& forall|k: int| 0 <= k < self.fields.len() ==> (#[trigger] self.fields[k]).length.valid()
    }

    /// The width of one unit, in sub-units.
    pub open spec fn unit(self) -> int {
        SCALE * self.style.unit_width
    }

    /// The number of units that field `k` takes up.
    pub open spec fn units(self, k: int) -> int {
        match self.fields[k].length {
            LengthSpec::Fixed(n) => n as int,
            LengthSpec::Variable(_) => self.style.dyn_units as int,
        }
    }

    /// Whether field `k` has a fixed length.
    pub open spec fn is_fixed(self, k: int) -> bool {
        self.fields[k].length is Fixed
    }

    /// The width of field `k`.
    pub open spec fn width(self, k: int) -> int {
        self.units(k) * self.unit()
    }

    /// Whether a row ends with field `k` and another one follows.
    pub open spec fn break_after(self, k: int) -> bool {
        0 <= k && k + 1 < self.len() && self.fields[k].wrap
    }

    /// The width of the fields that precede field `k` in its row.
    pub open spec fn before(self, k: int) -> int
        decreases k,
    {
        if k <= 0 || self.break_after(k - 1) {
            0
        } else {
            self.before(k - 1) + self.width(k - 1)
        }
    }

    /// The width of the fields that follow field `k` in its row.
    pub open spec fn after(self, k: int) -> int
        decreases self.len() - k,
    {
        if k + 1 >= self.len() || self.break_after(k) {
            0
        } else {
            self.after(k + 1) + self.width(k + 1)
        }
    }

    /// The width of the row that holds field `k`.
    pub open spec fn row_width(self, k: int) -> int {
        self.before(k) + self.width(k) + self.after(k)
    }

    /// The width of the widest row among those of the first `n` fields.
    pub open spec fn widest_upto(self, n: int) -> int
        decreases n,
    {
        if n <= 0 {
            0
        } else if self.widest_upto(n - 1) >= self.row_width(n - 1) {
            self.widest_upto(n - 1)
        } else {
            self.row_width(n - 1)
        }
    }

    /// The width of the widest row.
    pub open spec fn widest(self) -> int {
        self.widest_upto(self.len())
    }

    /// The number of breaks that precede field `k`.
    pub open spec fn breaks_upto(self, k: int) -> int
        decreases k,
    {
        if k <= 0 {
            0
        } else {
            self.breaks_upto(k - 1) + if self.break_after(k - 1) {
                1int
            } else {
                0int
            }
        }
    }

    /// The number of rows.
    pub open spec fn rows(self) -> int {
        self.breaks_upto(self.len()) + 1
    }

    /// The row of field `k`, counted from the top.
    pub open spec fn row(self, k: int) -> int {
        if self.elements.network_order {
            self.breaks_upto(k)
        } else {
            self.breaks_upto(self.len()) - self.breaks_upto(k)
        }
    }

    /// The room under a field for its length subtitle, where rows inside
    /// the figure carry one.
    pub open spec fn length_room(self) -> int {
        if self.elements.inner_subtitles && self.elements.field_length {
            DEFAULT_LENGTH_SIZE + DEFAULT_TEXT_SIZE + DEFAULT_SUB_PADDING / 2
        } else {
            0
        }
    }

    /// The room for a position subtitle, where rows inside the figure carry one.
    pub open spec fn position_room(self) -> int {
        if self.elements.inner_subtitles && self.elements.field_position {
            DEFAULT_TEXT_SIZE + DEFAULT_SUB_PADDING / 2
        } else {
            0
        }
    }

    /// The distance from the top of one row to the top of the next.
    pub open spec fn pitch(self) -> int {
        let e = self.elements;
        let gap = if e.wrap_line || (e.inner_subtitles && (e.field_length || e.field_position)) {
            2 * DEFAULT_SUB_PADDING
        } else {
            0
        };
        DEFAULT_SIZE_Y + gap + self.length_room() + self.position_room()
    }

    /// The top edge of field `k`.
    pub open spec fn top(self, k: int) -> int {
        DEFAULT_PADDING + self.row(k) * self.pitch()
    }

    /// The left edge of field `k`.
    pub open spec fn left(self, k: int) -> int {
        if self.elements.network_order {
            DEFAULT_PADDING + self.before(k)
        } else {
            DEFAULT_PADDING + self.widest() - self.before(k) - self.width(k)
        }
    }

    /// The right edge of field `k`.
    pub open spec fn right(self, k: int) -> int {
        self.left(k) + self.width(k)
    }

    /// The width of the canvas: the widest row between two margins.
    pub open spec fn canvas_width(self) -> int {
        DEFAULT_PADDING + self.widest() + DEFAULT_PADDING
    }

    /// The height of the canvas: the rows between two margins.
    pub open spec fn canvas_height(self) -> int {
        DEFAULT_PADDING + (self.rows() - 1) * self.pitch() + DEFAULT_SIZE_Y + DEFAULT_PADDING
    }

    /// The sum of the fixed lengths among the first `k` fields.
    pub open spec fn offset_upto(self, k: int) -> nat
        decreases k,
    {
        if k <= 0 {
            0
        } else {
            match self.fields[k - 1].length {
                LengthSpec::Fixed(n) => self.offset_upto(k - 1) + n,
                LengthSpec::Variable(_) => self.offset_upto(k - 1),
            }
        }
    }

    /// The figure fits the machine: its canvas in `i64` sub-units and,
    /// where position subtitles are shown, the sum of its fixed lengths in
    /// `usize`.
    pub open spec fn drawable(self) -> bool {
        &&& self.canvas_width() <= i64::MAX
        &&& self.canvas_height() <= i64::MAX
        &&& self.elements.field_position ==> self.offset_upto(self.len()) <= usize::MAX
    }

    /// The field that is drawn as the `i`-th.
    pub open spec fn drawn(self, i: int) -> int {
        if self.elements.network_order {
            i
        } else {
            self.len() - 1 - i
        }
    }

    /// The gap between the two segments of a variable field: the nominal
    /// gap where a fifth of the unit width falls short of it and the unit
    /// width is at least twice as large, half the unit width where it is
    /// smaller than that, and a fifth of the unit width otherwise.
    pub open spec fn spacing(self) -> int {
        if self.unit() < 5 * DEFAULT_DYN_SPACING_VALUE {
            if self.unit() >= 2 * DEFAULT_DYN_SPACING_VALUE {
                DEFAULT_DYN_SPACING_VALUE as int
            } else {
                self.unit() / 2
            }
        } else {
            self.unit() / 5
        }
    }
}

impl ProtoSpec {
    /// A field is at least one unit wide, and a unit at least ten engine units.
    pub proof fn lemma_width_bounds(self, k: int)
        requires
            self.valid(),
            0 <= k < self.len(),
        ensures
            self.unit() >= 10 * SCALE,
            self.units(k) >= 1,
            self.width(k) >= self.unit(),
    {
        let f = self.fields[k];
        assert(f.length.valid());
        assert(self.units(k) * self.unit() >= 1 * self.unit()) by (nonlinear_arith)
            requires
                self.units(k) >= 1,
                self.unit() >= 0,
        ;
    }

    /// Nothing precedes a field by a negative width.
    pub proof fn lemma_before_nonneg(self, k: int)
        requires
            self.valid(),
            0 <= k < self.len(),
        ensures
            self.before(k) >= 0,
        decreases k,
    {
        if k > 0 && !self.break_after(k - 1) {
            self.lemma_before_nonneg(k - 1);
            self.lemma_width_bounds(k - 1);
        }
    }

    /// Nothing follows a field by a negative width.
    pub proof fn lemma_after_nonneg(self, k: int)
        requires
            self.valid(),
            0 <= k < self.len(),
        ensures
            self.after(k) >= 0,
        decreases self.len() - k,
    {
        if k + 1 < self.len() && !self.break_after(k) {
            self.lemma_after_nonneg(k + 1);
            self.lemma_width_bounds(k + 1);
        }
    }

    /// Two neighbours without a break between them lie in rows of one width.
    pub proof fn lemma_row_width_step(self, k: int)
        requires
            0 <= k,
            k + 1 < self.len(),
            !self.break_after(k),
        ensures
            self.row_width(k) == self.row_width(k + 1),
    {
    }

    /// No row among those of the first `n` fields is wider than the widest.
    pub proof fn lemma_widest_upper(self, n: int, k: int)
        requires
            0 <= k < n,
        ensures
            self.row_width(k) <= self.widest_upto(n),
        decreases n,
    {
        if k < n - 1 {
            self.lemma_widest_upper(n - 1, k);
        }
    }

    /// The widest row is the row of some field.
    pub proof fn lemma_widest_attained(self, n: int) -> (k: int)
        requires
            self.valid(),
            0 < n <= self.len(),
        ensures
            0 <= k < n,
            self.widest_upto(n) == self.row_width(k),
        decreases n,
    {
        if n == 1 {
            self.lemma_before_nonneg(0);
            self.lemma_after_nonneg(0);
            self.lemma_width_bounds(0);
            assert(self.widest_upto(0) == 0);
            0
        } else if self.widest_upto(n - 1) >= self.row_width(n - 1) {
            self.lemma_widest_attained(n - 1)
        } else {
            n - 1
        }
    }

    /// A field lies within its row, and its row within the widest.
    pub proof fn lemma_within_widest(self, k: int)
        requires
            self.valid(),
            0 <= k < self.len(),
        ensures
            0 <= self.before(k),
            0 <= self.after(k),
            10 * SCALE <= self.unit() <= self.width(k),
            self.row_width(k) <= self.widest(),
    {
        self.lemma_before_nonneg(k);
        self.lemma_after_nonneg(k);
        self.lemma_width_bounds(k);
        self.lemma_widest_upper(self.len(), k);
    }

    /// The number of breaks grows with the number of fields, by at most one a field.
    pub proof fn lemma_breaks_monotone(self, j: int, k: int)
        requires
            0 <= j <= k,
        ensures
            0 <= self.breaks_upto(j) <= self.breaks_upto(k),
            self.breaks_upto(k) - self.breaks_upto(j) <= k - j,
        decreases k,
    {
        if j < k {
            self.lemma_breaks_monotone(j, k - 1);
        } else {
            if k > 0 {
                self.lemma_breaks_monotone(0, k - 1);
            }
        }
    }

    /// Every field lies in one of the rows.
    pub proof fn lemma_row_bounds(self, k: int)
        requires
            0 <= k < self.len(),
        ensures
            0 <= self.row(k) < self.rows(),
            self.rows() <= self.len(),
    {
        self.lemma_breaks_monotone(0, k);
        self.lemma_breaks_monotone(k, self.len());
        self.lemma_breaks_monotone(0, self.len() - 1);
        assert(!self.break_after(self.len() - 1));
    }

    /// The distance between rows is at least the height of a field.
    pub proof fn lemma_pitch_bounds(self)
        ensures
            DEFAULT_SIZE_Y <= self.pitch() <= DEFAULT_SIZE_Y + 2 * DEFAULT_SUB_PADDING
                + DEFAULT_LENGTH_SIZE + 2 * DEFAULT_TEXT_SIZE + DEFAULT_SUB_PADDING,
    {
    }

    /// Every field of a figure that fits the machine lies inside the canvas.
    pub proof fn lemma_inside_canvas(self, k: int)
        requires
            self.valid(),
            0 <= k < self.len(),
        ensures
            DEFAULT_PADDING <= self.left(k),
            self.right(k) + DEFAULT_PADDING <= self.canvas_width(),
            DEFAULT_PADDING <= self.top(k),
            self.top(k) + DEFAULT_SIZE_Y + DEFAULT_PADDING <= self.canvas_height(),
    {
        self.lemma_within_widest(k);
        self.lemma_row_bounds(k);
        self.lemma_pitch_bounds();
        let r = self.row(k);
        let last = self.rows() - 1;
        let p = self.pitch();
        assert(0 <= r * p <= last * p) by (nonlinear_arith)
            requires
                0 <= r <= last,
                0 <= p,
        ;
    }
}


impl ProtoSpec {
    /// From one field to a later one the rows run down in network order, and up otherwise.
    pub proof fn lemma_row_monotone(self, j: int, k: int)
        requires
            0 <= j <= k < self.len(),
        ensures
            self.elements.network_order ==> self.row(j) <= self.row(k),
            !self.elements.network_order ==> self.row(j) >= self.row(k),
    {
        self.lemma_breaks_monotone(j, k);
    }

    /// The first field lies in the top row in network order and in the
    /// bottom row otherwise; the last field lies in the row opposite.
    pub proof fn lemma_outer_rows(self)
        requires
            0 < self.len(),
        ensures
            self.row(0) == if self.elements.network_order {
                0
            } else {
                self.rows() - 1
            },
            self.row(self.len() - 1) == if self.elements.network_order {
                self.rows() - 1
            } else {
                0
            },
    {
        assert(!self.break_after(self.len() - 1));
        assert(self.breaks_upto(0) == 0);
    }

    /// The fixed lengths among the first fields sum to no more than those among all.
    pub proof fn lemma_offset_monotone(self, j: int, k: int)
        requires
            0 <= j <= k,
        ensures
            self.offset_upto(j) <= self.offset_upto(k),
        decreases k,
    {
        if j < k {
            self.lemma_offset_monotone(j, k - 1);
        }
    }
}

impl ProtoSpec {
    /// The first field at or after `k` whose length is not valid, or the
    /// number of fields.
    pub open spec fn first_invalid(self, k: int) -> int
        decreases self.len() - k,
    {
        if 0 <= k < self.len() && self.fields[k].length.valid() {
            self.first_invalid(k + 1)
        } else {
            k
        }
    }

    /// Why a descriptor that is not valid is turned away: the first of the
    /// demands that it fails, in the order unit width, dynamic units,
    /// fields present, lengths of the fields from first to last.
    pub open spec fn complaint(self) -> Seq<char> {
        if self.style.unit_width < 10 {
            "Unit width cannot be less than 10"@
        } else if self.style.dyn_units < 3 {
            "Dynamic units cannot be less than 3"@
        } else if self.fields.len() == 0 {
            "No fields provided"@
        } else if self.fields[self.first_invalid(0)].length is Fixed {
            "Field length cannot be zero"@
        } else {
            "Field length cannot be empty"@
        }
    }

    /// Why no figure is drawn of this descriptor, if none is.
    pub open spec fn refusal(self) -> Option<Seq<char>> {
        if !self.valid() {
            Some(self.complaint())
        } else if !self.drawable() {
            Some("Figure is too large"@)
        } else {
            None
        }
    }
}

} // verus!
