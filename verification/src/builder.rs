//! The field shape builder: the rectangle or two-segment shape of each
//! field, its tick marks and its name.

use vstd::prelude::*;
use crate::descriptor::{FieldDescriptor, FieldLength, ProtoDescriptor, ProtoSpec};
use crate::rows::Slot;
use crate::shapes::{
    flat, lemma_views_push, views, Components, ComponentsDynamic, DynamicFields, FieldText,
    FieldTicks, StaticFields, TextBaseline, DEFAULT_DYN_SPACING_VALUE, DEFAULT_SIZE_Y,
    DEFAULT_STROKE_WIDTH, DEFAULT_TEXT_SIZE, DEFAULT_TICK_SIZE,
};

verus! {

impl ProtoSpec {
    /// The place of field `k` in the finished figure.
    pub open spec fn placed(self, k: int, slot: Slot) -> bool {
        &&& slot.x == self.left(k)
        &&& slot.y == self.top(k)
        &&& slot.width == self.width(k)
        &&& slot.row == self.row(k)
    }

    /// The two segments of a variable field and the gap between them are
    /// together as wide as the field, and the segments are not empty.
    pub proof fn lemma_dynamic_size(self, k: int)
        requires
            self.valid(),
            0 <= k < self.len(),
            !self.is_fixed(k),
        ensures
            self.dynamic_size().x1 + self.dynamic_size().spacing + self.dynamic_size().x2
                == self.width(k),
            0 < self.dynamic_size().x2 <= self.dynamic_size().x1,
            0 < self.spacing() <= self.unit() / 2,
            2 <= self.long_units() <= self.style.dyn_units,
            self.long_units() * self.unit() <= self.width(k),
    {
        let u = self.unit();
        let du = self.style.dyn_units as int;
        let long = self.long_units();
        let short = self.short_units();
        assert(long + short == du);
        assert(long * u + short * u == du * u) by (nonlinear_arith)
            requires
                long + short == du,
        ;
        assert(short * u >= u && long * u >= short * u) by (nonlinear_arith)
            requires
                1 <= short <= long,
                u >= 0,
        ;
    }
}

/// The background of a field: its own colour, or that of the style.
fn fill_of(descriptor: &ProtoDescriptor, k: usize) -> (color: hex_color::HexColor)
    requires
        k < descriptor@.len(),
    ensures
        color == descriptor@.fill(k as int),
{
    match descriptor.fields[k].color {
        Some(color) => color,
        None => descriptor.style.field_color,
    }
}

/// The size of the variable field `k`, where `unit` is the width of one unit.
pub fn dynamic_size_of(descriptor: &ProtoDescriptor, k: usize, unit: i64) -> (size:
    ComponentsDynamic)
    requires
        descriptor@.valid(),
        descriptor@.drawable(),
        k < descriptor@.len(),
        !descriptor@.is_fixed(k as int),
        unit == descriptor@.unit(),
    ensures
        size@ == descriptor@.dynamic_size(),
{
    let ghost d = descriptor@;
    proof {
        d.lemma_within_widest(k as int);
        d.lemma_dynamic_size(k as int);
        let du = d.style.dyn_units as int;
        assert(400 * du <= du * d.unit()) by (nonlinear_arith)
            requires
                du >= 1,
                d.unit() >= 400,
        ;
        assert(d.short_units() * d.unit() <= d.long_units() * d.unit()) by (nonlinear_arith)
            requires
                0 <= d.short_units() <= d.long_units(),
                d.unit() >= 0,
        ;
        assert(0 <= d.short_units() * d.unit()) by (nonlinear_arith)
            requires
                0 <= d.short_units(),
                d.unit() >= 0,
        ;
    }
    let spacing: i64 = if unit < 5 * DEFAULT_DYN_SPACING_VALUE {
        if unit >= 2 * DEFAULT_DYN_SPACING_VALUE {
            DEFAULT_DYN_SPACING_VALUE
        } else {
            unit / 2
        }
    } else {
        unit / 5
    };
    let dyn_units: i64 = descriptor.style.dyn_units as i64;
    let long: i64 = (2 * dyn_units + 2) / 3;
    let short: i64 = dyn_units / 3;
    ComponentsDynamic {
        x1: long * unit - spacing / 2,
        x2: short * unit - spacing / 2,
        spacing,
        delta: unit / 2,
        y: DEFAULT_SIZE_Y,
    }
}

/// Adds the tick marks of the fixed field `k`: a pair on each inner boundary.
pub fn push_ticks(
    descriptor: &ProtoDescriptor,
    k: usize,
    slot: &Slot,
    unit: i64,
    field_ticks: &mut Vec<FieldTicks>,
)
    requires
        descriptor@.valid(),
        descriptor@.drawable(),
        k < descriptor@.len(),
        descriptor@.placed(k as int, *slot),
        unit == descriptor@.unit(),
    ensures
        views(final(field_ticks)@) == views(old(field_ticks)@) + descriptor@.ticks_of(k as int),
{
    let ghost d = descriptor@;
    let ghost start = views(field_ticks@);
    match &descriptor.fields[k].length {
        FieldLength::Fixed(length) => {
            let length: usize = *length;
            let mut t: usize = 1;
            let mut x: i64 = slot.x;
            proof {
                d.lemma_within_widest(k as int);
                d.lemma_inside_canvas(k as int);
                assert(d.units(k as int) == length);
                assert(views(field_ticks@) =~= start + flat(0, d.tick_pairs(k as int)));
            }
            while t < length
                invariant
                    d == descriptor@,
                    d.valid(),
                    d.drawable(),
                    k < d.len(),
                    d.placed(k as int, *slot),
                    unit == d.unit(),
                    d.units(k as int) == length,
                    1 <= t <= length,
                    x == d.left(k as int) + (t - 1) * unit,
                    views(field_ticks@) == start + flat(t - 1, d.tick_pairs(k as int)),
                decreases length - t,
            {
                proof {
                    d.lemma_within_widest(k as int);
                    d.lemma_inside_canvas(k as int);
                    assert((t - 1) * unit + unit == t * unit) by (nonlinear_arith);
                    assert(t * unit <= length * unit) by (nonlinear_arith)
                        requires
                            t <= length,
                            unit >= 0,
                    ;
                }
                x = x + unit;
                let upper = FieldTicks {
                    coordinates: Components { x, y: slot.y },
                    size: Components { x: DEFAULT_STROKE_WIDTH, y: DEFAULT_TICK_SIZE },
                    color: descriptor.style.text_color,
                };
                let lower = FieldTicks {
                    coordinates: Components {
                        x,
                        y: slot.y + (DEFAULT_SIZE_Y - DEFAULT_TICK_SIZE),
                    },
                    size: Components { x: DEFAULT_STROKE_WIDTH, y: DEFAULT_TICK_SIZE },
                    color: descriptor.style.text_color,
                };
                proof {
                    let before = field_ticks@;
                    lemma_views_push(before, upper);
                    lemma_views_push(before.push(upper), lower);
                    assert(upper@ == d.tick(k as int, t as int, 0));
                    assert(lower@ == d.tick(
                        k as int,
                        t as int,
                        DEFAULT_SIZE_Y - DEFAULT_TICK_SIZE,
                    ));
                    assert(d.tick_pairs(k as int)(t - 1) == d.tick_pair(k as int, t as int));
                    assert(views(before).push(upper@).push(lower@) =~= start + flat(
                        t as int,
                        d.tick_pairs(k as int),
                    ));
                }
                field_ticks.push(upper);
                field_ticks.push(lower);
                t += 1;
            }
        },
        FieldLength::Variable(_) => {
            assert(views(field_ticks@) =~= start + d.ticks_of(k as int));
        },
    }
}

/// The shapes of the fields themselves.
#[derive(Debug)]
pub struct FieldShapes {
    pub static_fields: Vec<StaticFields>,
    pub dynamic_fields: Vec<DynamicFields>,
    pub field_ticks: Vec<FieldTicks>,
    pub field_texts: Vec<FieldText>,
}

/// Adds the rectangle or the two-segment shape of field `k`, then its name.
pub fn push_field(
    descriptor: &ProtoDescriptor,
    k: usize,
    slot: &Slot,
    unit: i64,
    shapes: &mut FieldShapes,
)
    requires
        descriptor@.valid(),
        descriptor@.drawable(),
        k < descriptor@.len(),
        descriptor@.placed(k as int, *slot),
        unit == descriptor@.unit(),
    ensures
        views(final(shapes).static_fields@) == views(old(shapes).static_fields@) + if descriptor@.is_fixed(
            k as int,
        ) {
            seq![descriptor@.rect(k as int)]
        } else {
            Seq::empty()
        },
        views(final(shapes).dynamic_fields@) == views(old(shapes).dynamic_fields@) + if descriptor@.is_fixed(
            k as int,
        ) {
            Seq::empty()
        } else {
            seq![descriptor@.trapezoid(k as int)]
        },
        views(final(shapes).field_texts@) == views(old(shapes).field_texts@).push(
            descriptor@.label(k as int),
        ),
        final(shapes).field_ticks == old(shapes).field_ticks,
{
    let ghost d = descriptor@;
    let field: &FieldDescriptor = &descriptor.fields[k];
    let coordinates = Components { x: slot.x, y: slot.y };
    proof {
        d.lemma_within_widest(k as int);
        d.lemma_inside_canvas(k as int);
    }
    let half: i64 = match &field.length {
        FieldLength::Fixed(_) => {
            let shape = StaticFields {
                background: fill_of(descriptor, k),
                coordinates,
                size: Components { x: slot.width, y: DEFAULT_SIZE_Y },
                stroke_color: descriptor.style.text_color,
                stroke_width: DEFAULT_STROKE_WIDTH,
            };
            proof {
                lemma_views_push(shapes.static_fields@, shape);
                assert(views(shapes.static_fields@).push(shape@) =~= views(shapes.static_fields@)
                    + seq![d.rect(k as int)]);
                assert(views(shapes.dynamic_fields@) =~= views(shapes.dynamic_fields@)
                    + Seq::empty());
            }
            shapes.static_fields.push(shape);
            slot.width / 2
        },
        FieldLength::Variable(_) => {
            let size = dynamic_size_of(descriptor, k, unit);
            let shape = DynamicFields {
                background: fill_of(descriptor, k),
                coordinates,
                size,
                stroke_color: descriptor.style.text_color,
                stroke_width: DEFAULT_STROKE_WIDTH,
            };
            proof {
                d.lemma_dynamic_size(k as int);
                lemma_views_push(shapes.dynamic_fields@, shape);
                assert(views(shapes.dynamic_fields@).push(shape@) =~= views(
                    shapes.dynamic_fields@,
                ) + seq![d.trapezoid(k as int)]);
                assert(views(shapes.static_fields@) =~= views(shapes.static_fields@)
                    + Seq::empty());
            }
            shapes.dynamic_fields.push(shape);
            size.x1 / 2
        },
    };
    let text = FieldText {
        text: field.name.clone(),
        coordinates: Components { x: slot.x + half, y: slot.y + DEFAULT_SIZE_Y / 2 },
        color: descriptor.style.text_color,
        baseline: TextBaseline::Middle,
        height: DEFAULT_TEXT_SIZE,
    };
    proof {
        lemma_views_push(shapes.field_texts@, text);
        assert(text@ == d.label(k as int));
    }
    shapes.field_texts.push(text);
}

/// The field shape builder: the shapes, tick marks and names of all
/// fields, as they are drawn.
pub fn build_fields(descriptor: &ProtoDescriptor, slots: &Vec<Slot>, unit: i64) -> (shapes:
    FieldShapes)
    requires
        descriptor@.valid(),
        descriptor@.drawable(),
        descriptor@.aligned(slots@),
        unit == descriptor@.unit(),
    ensures
        views(shapes.static_fields@) == descriptor@.static_fields(),
        views(shapes.dynamic_fields@) == descriptor@.dynamic_fields(),
        views(shapes.field_ticks@) == descriptor@.field_ticks(),
        views(shapes.field_texts@) == descriptor@.labels(),
{
    let ghost d = descriptor@;
    let n: usize = descriptor.fields.len();
    let mut shapes = FieldShapes {
        static_fields: Vec::new(),
        dynamic_fields: Vec::new(),
        field_ticks: Vec::new(),
        field_texts: Vec::new(),
    };
    proof {
        assert(views(shapes.static_fields@) =~= flat(0, d.static_parts()));
        assert(views(shapes.dynamic_fields@) =~= flat(0, d.dynamic_parts()));
        assert(views(shapes.field_ticks@) =~= flat(0, d.tick_parts()));
        assert(views(shapes.field_texts@) =~= flat(0, d.label_parts()));
    }
    let mut i: usize = 0;
    while i < n
        invariant
            d == descriptor@,
            d.valid(),
            d.drawable(),
            d.aligned(slots@),
            unit == d.unit(),
            n == d.len(),
            i <= n,
            views(shapes.static_fields@) == flat(i as int, d.static_parts()),
            views(shapes.dynamic_fields@) == flat(i as int, d.dynamic_parts()),
            views(shapes.field_ticks@) == flat(i as int, d.tick_parts()),
            views(shapes.field_texts@) == flat(i as int, d.label_parts()),
        decreases n - i,
    {
        let k: usize = if descriptor.elements.network_order {
            i
        } else {
            n - 1 - i
        };
        let slot: &Slot = &slots[i];
        proof {
            assert(k == d.drawn(i as int));
            assert(d.slot_aligned(i as int, slots@[i as int]));
            assert(d.static_parts()(i as int) == if d.is_fixed(k as int) {
                seq![d.rect(k as int)]
            } else {
                Seq::empty()
            });
            assert(d.dynamic_parts()(i as int) == if d.is_fixed(k as int) {
                Seq::empty()
            } else {
                seq![d.trapezoid(k as int)]
            });
            assert(d.tick_parts()(i as int) == d.ticks_of(k as int));
            assert(d.label_parts()(i as int) == seq![d.label(k as int)]);
        }
        push_ticks(descriptor, k, slot, unit, &mut shapes.field_ticks);
        push_field(descriptor, k, slot, unit, &mut shapes);
        proof {
            assert(views(shapes.field_texts@) =~= flat(i + 1, d.label_parts()));
        }
        i += 1;
    }
    shapes
}

} // verus!
