//! What holds of every figure.

use vstd::prelude::*;
use crate::descriptor::{ElementsDescriptor, ProtoDescriptor, ProtoSpec};
use crate::shapes::{
    lemma_flat_uniform, lemma_flat_uniform_len, DEFAULT_PADDING, DEFAULT_SIZE_Y,
    DEFAULT_TICK_SIZE,
};
use crate::template::TemplateData;

verus! {

impl ProtoSpec {
    /// The same descriptor with the fields running the other way.
    pub open spec fn flipped(self) -> ProtoSpec {
        ProtoSpec {
            elements: ElementsDescriptor {
                network_order: !self.elements.network_order,
                ..self.elements
            },
            style: self.style,
            fields: self.fields,
        }
    }

    /// The width of the first `k` fields laid end to end.
    pub open spec fn span_upto(self, k: int) -> int
        decreases k,
    {
        if k <= 0 {
            0
        } else {
            self.span_upto(k - 1) + self.width(k - 1)
        }
    }

    /// The width of all fields laid end to end.
    pub open spec fn span(self) -> int {
        self.span_upto(self.len())
    }

    proof fn lemma_flip_before(self, k: int)
        ensures
            self.flipped().before(k) == self.before(k),
        decreases k,
    {
        let f = self.flipped();
        assert(f.break_after(k - 1) == self.break_after(k - 1));
        assert(f.width(k - 1) == self.width(k - 1));
        if k > 0 && !self.break_after(k - 1) {
            self.lemma_flip_before(k - 1);
        }
    }

    proof fn lemma_flip_after(self, k: int)
        ensures
            self.flipped().after(k) == self.after(k),
        decreases self.len() - k,
    {
        let f = self.flipped();
        assert(f.break_after(k) == self.break_after(k));
        assert(f.width(k + 1) == self.width(k + 1));
        if k + 1 < self.len() && !self.break_after(k) {
            self.lemma_flip_after(k + 1);
        }
    }

    proof fn lemma_flip_widest(self, n: int)
        ensures
            self.flipped().widest_upto(n) == self.widest_upto(n),
        decreases n,
    {
        if n > 0 {
            self.lemma_flip_widest(n - 1);
            self.lemma_flip_before(n - 1);
            self.lemma_flip_after(n - 1);
            assert(self.flipped().width(n - 1) == self.width(n - 1));
        }
    }

    proof fn lemma_flip_breaks(self, k: int)
        ensures
            self.flipped().breaks_upto(k) == self.breaks_upto(k),
        decreases k,
    {
        if k > 0 {
            self.lemma_flip_breaks(k - 1);
            assert(self.flipped().break_after(k - 1) == self.break_after(k - 1));
        }
    }

    proof fn lemma_single_row(self, k: int)
        requires
            self.valid(),
            self.rows() == 1,
            0 <= k < self.len(),
        ensures
            self.before(k) == self.span_upto(k),
            self.before(k) + self.width(k) + self.after(k) == self.span(),
        decreases self.len() - k,
    {
        self.lemma_span_before(k);
        self.lemma_breaks_monotone(0, k);
        self.lemma_breaks_monotone(k, k + 1);
        self.lemma_breaks_monotone(k + 1, self.len());
        assert(!self.break_after(k));
        if k + 1 < self.len() {
            self.lemma_single_row(k + 1);
        }
    }

    proof fn lemma_span_before(self, k: int)
        requires
            self.valid(),
            self.rows() == 1,
            0 <= k < self.len(),
        ensures
            self.before(k) == self.span_upto(k),
        decreases k,
    {
        if k > 0 {
            self.lemma_breaks_monotone(0, k - 1);
            self.lemma_breaks_monotone(k - 1, k);
            self.lemma_breaks_monotone(k, self.len());
            assert(!self.break_after(k - 1));
            self.lemma_span_before(k - 1);
        }
    }
}

/// The canvas is wider and higher than nothing. It holds every row
/// between its two margins: it is at least as wide as the fields of any
/// one row laid end to end, and a margin on either side.
pub proof fn law_canvas_holds_every_row(d: ProtoSpec, k: int)
    requires
        d.valid(),
        0 <= k < d.len(),
    ensures
        d.geometry().size.x == d.canvas_width(),
        d.geometry().size.y == d.canvas_height(),
        d.canvas_width() > 0,
        d.canvas_height() > 0,
        d.canvas_width() >= d.before(k) + d.width(k) + d.after(k) + 2 * DEFAULT_PADDING,
        DEFAULT_PADDING <= d.left(k),
        d.right(k) + DEFAULT_PADDING <= d.canvas_width(),
        DEFAULT_PADDING <= d.top(k),
        d.top(k) + DEFAULT_SIZE_Y + DEFAULT_PADDING <= d.canvas_height(),
{
    d.lemma_within_widest(k);
    d.lemma_inside_canvas(k);
}

/// The canvas of a figure of one row is as wide as all fields laid end to
/// end, and a margin on either side.
pub proof fn law_canvas_of_one_row(d: ProtoSpec)
    requires
        d.valid(),
        d.rows() == 1,
    ensures
        d.canvas_width() == d.span() + 2 * DEFAULT_PADDING,
{
    let top = d.lemma_widest_attained(d.len());
    d.lemma_single_row(top);
}

/// Where the fields laid end to end overrun the widest row by no more
/// than a margin, the canvas is at least as wide as all of them and a margin.
pub proof fn law_canvas_spans_the_fields(d: ProtoSpec)
    requires
        d.valid(),
        d.span() <= d.widest() + DEFAULT_PADDING,
    ensures
        d.canvas_width() >= d.span() + DEFAULT_PADDING,
{
}

/// Drawing the fields the other way mirrors the figure: the canvas keeps
/// its size, every field keeps its width and lies as far from the right
/// edge of the canvas as it lay from the left, and as far from the last
/// row as it lay from the first. Every name stays with its field, at the
/// same place within it, and the names are drawn in the opposite order.
pub proof fn law_reversal_mirrors(d: ProtoSpec, k: int)
    requires
        d.valid(),
        0 <= k < d.len(),
    ensures
        d.flipped().valid(),
        d.flipped().canvas_width() == d.canvas_width(),
        d.flipped().canvas_height() == d.canvas_height(),
        d.flipped().width(k) == d.width(k),
        d.left(k) + d.flipped().right(k) == d.canvas_width(),
        d.top(k) + d.flipped().top(k) == 2 * DEFAULT_PADDING + (d.rows() - 1) * d.pitch(),
        d.flipped().label(k).text == d.label(k).text,
        d.flipped().label(k).coordinates.x - d.flipped().left(k) == d.label(k).coordinates.x
            - d.left(k),
        d.flipped().label(k).coordinates.y - d.flipped().top(k) == d.label(k).coordinates.y
            - d.top(k),
        d.flipped().drawn(k) == d.len() - 1 - d.drawn(k),
        d.labels().len() == d.len(),
        d.flipped().labels().len() == d.len(),
        d.flipped().labels()[k].text == d.labels()[d.len() - 1 - k].text,
{
    let f = d.flipped();
    assert(f.valid()) by {
        assert forall|j: int| 0 <= j < f.fields.len() implies (#[trigger] f.fields[j]).length.valid() by {
            assert(d.fields[j].length.valid());
        }
    }
    d.lemma_flip_before(k);
    d.lemma_flip_after(k);
    d.lemma_flip_widest(d.len());
    d.lemma_flip_breaks(k);
    d.lemma_flip_breaks(d.len());
    assert(f.pitch() == d.pitch());
    assert(f.dynamic_size() == d.dynamic_size());
    let a = d.breaks_upto(k);
    let t = d.breaks_upto(d.len());
    let p = d.pitch();
    assert(a * p + (t - a) * p == t * p) by (nonlinear_arith);
    assert forall|i: int| 0 <= i < d.len() implies (#[trigger] d.label_parts()(i)).len() == 1 by {}
    assert forall|i: int| 0 <= i < d.len() implies (#[trigger] f.label_parts()(i)).len() == 1 by {}
    lemma_flat_uniform(d.len(), d.label_parts(), 1, d.len() - 1 - k, 0);
    lemma_flat_uniform(d.len(), f.label_parts(), 1, k, 0);
    assert(f.drawn(k) == d.drawn(d.len() - 1 - k));
}

/// A fixed field of `n` units has `n - 1` pairs of tick marks, one pair on
/// each inner boundary: the first of a pair on the top edge, the second on
/// the bottom edge.
pub proof fn law_tick_pairs(d: ProtoSpec, k: int, t: int)
    requires
        d.valid(),
        0 <= k < d.len(),
        d.is_fixed(k),
        1 <= t < d.units(k),
    ensures
        d.ticks_of(k).len() == 2 * (d.units(k) - 1),
        d.ticks_of(k)[2 * (t - 1)] == d.tick(k, t, 0),
        d.ticks_of(k)[2 * (t - 1) + 1] == d.tick(k, t, DEFAULT_SIZE_Y - DEFAULT_TICK_SIZE),
{
    let n = d.units(k) - 1;
    let f = d.tick_pairs(k);
    assert forall|i: int| 0 <= i < n implies (#[trigger] f(i)).len() == 2 by {}
    lemma_flat_uniform(n, f, 2, t - 1, 0);
    lemma_flat_uniform(n, f, 2, t - 1, 1);
    assert(f(t - 1) == d.tick_pair(k, t));
}

/// A fixed field of one unit and a variable field have no tick marks.
pub proof fn law_no_ticks(d: ProtoSpec, k: int)
    requires
        d.valid(),
        0 <= k < d.len(),
        !d.is_fixed(k) || d.units(k) == 1,
    ensures
        d.ticks_of(k).len() == 0,
{
    if d.is_fixed(k) {
        lemma_flat_uniform_len(0, d.tick_pairs(k), 2);
    }
}

/// A field that wraps and is not the last has its row to itself and what
/// precedes it: the next field starts another row, one further down in
/// network order and one further up otherwise. Two neighbours share a row
/// where the first of them does not wrap.
pub proof fn law_wrap_breaks_the_row(d: ProtoSpec, k: int)
    requires
        d.valid(),
        0 <= k,
        k + 1 < d.len(),
    ensures
        d.fields[k].wrap && d.elements.network_order ==> d.row(k + 1) == d.row(k) + 1 && d.top(
            k + 1,
        ) == d.top(k) + d.pitch() && d.left(k + 1) == DEFAULT_PADDING,
        d.fields[k].wrap && !d.elements.network_order ==> d.row(k) == d.row(k + 1) + 1 && d.top(k)
            == d.top(k + 1) + d.pitch() && d.right(k + 1) == d.canvas_width() - DEFAULT_PADDING,
        d.fields[k].wrap ==> d.top(k) != d.top(k + 1),
        !d.fields[k].wrap ==> d.row(k) == d.row(k + 1) && d.top(k) == d.top(k + 1),
        !d.fields[k].wrap && d.elements.network_order ==> d.right(k) == d.left(k + 1),
        !d.fields[k].wrap && !d.elements.network_order ==> d.right(k + 1) == d.left(k),
{
    let r = d.row(k);
    let s = d.row(k + 1);
    let p = d.pitch();
    d.lemma_pitch_bounds();
    assert((r + 1) * p == r * p + p) by (nonlinear_arith);
    assert((s + 1) * p == s * p + p) by (nonlinear_arith);
    assert(d.break_after(k) == d.fields[k].wrap);
}

/// No measure loses anything where the figure halves it: the unit width,
/// the gap of a variable field, its first segment and the width of every
/// field are even numbers of sub-units, and the unit width is a multiple
/// of five.
pub proof fn law_halves_are_exact(d: ProtoSpec, k: int)
    requires
        d.valid(),
        0 <= k < d.len(),
    ensures
        2 * (d.unit() / 2) == d.unit(),
        5 * (d.unit() / 5) == d.unit(),
        2 * (d.spacing() / 2) == d.spacing(),
        2 * (d.dynamic_size().x1 / 2) == d.dynamic_size().x1,
        2 * (d.width(k) / 2) == d.width(k),
{
    let w = d.style.unit_width as int;
    let n = d.units(k);
    let long = d.long_units();
    assert(d.unit() == 40 * w);
    assert(n * (40 * w) == 2 * (n * 20 * w)) by (nonlinear_arith);
    assert(long * (40 * w) == 4 * (long * 10 * w)) by (nonlinear_arith);
    assert(d.spacing() == 8 * w || d.spacing() == 400 || d.spacing() == 20 * w);
}

/// Descriptors of one value have figures of one value: the figure depends
/// on nothing but the descriptor.
pub proof fn law_same_descriptor_same_figure(
    a: ProtoDescriptor,
    b: ProtoDescriptor,
    x: TemplateData,
    y: TemplateData,
)
    requires
        a@ == b@,
        x@ == a@.geometry(),
        y@ == b@.geometry(),
    ensures
        x@ == y@,
{
}

} // verus!
