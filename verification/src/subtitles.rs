//! The subtitle aggregator: position subtitles, which sum up what
//! precedes a field, and length subtitles, one for each field.

use vstd::prelude::*;
use crate::counts::{lemma_bump_total, tally_total, VarCounts};
use crate::descriptor::{FieldLength, ProtoDescriptor, ProtoSpec};
use crate::rows::Slot;
use crate::shapes::{
    flat, lemma_flat_empty_tail, lemma_views_push, views, Components, FieldText, LengthBar,
    TextBaseline, DEFAULT_LENGTH_SIZE, DEFAULT_SIZE_Y, DEFAULT_STROKE_WIDTH, DEFAULT_SUB_PADDING,
    DEFAULT_TEXT_SIZE,
};
use crate::template::create_position_sub;
use crate::text::trim;

verus! {

impl ProtoSpec {
    /// Among the first `k` fields no more names have been counted than there are fields.
    pub proof fn lemma_names_total(self, k: int)
        requires
            0 <= k,
        ensures
            tally_total(self.names_upto(k)) <= k,
        decreases k,
    {
        if k > 0 {
            self.lemma_names_total(k - 1);
            match self.fields[k - 1].length {
                crate::descriptor::LengthSpec::Fixed(_) => {},
                crate::descriptor::LengthSpec::Variable(name) => {
                    lemma_bump_total(self.names_upto(k - 1), crate::text::trimmed(name));
                },
            }
        }
    }

    /// Once a field is outside the row that carries the position
    /// subtitles, so is every later one.
    pub proof fn lemma_position_kept_prefix(self, j: int, k: int)
        requires
            0 <= j <= k < self.len(),
            !self.position_kept(j),
        ensures
            !self.position_kept(k),
    {
        self.lemma_row_monotone(0, j);
        self.lemma_row_monotone(j, k);
    }

    /// Once a field is outside the row that carries the length subtitles,
    /// so is every earlier one.
    pub proof fn lemma_length_kept_suffix(self, j: int, k: int)
        requires
            0 <= j <= k < self.len(),
            !self.length_kept(k),
        ensures
            !self.length_kept(j),
    {
        self.lemma_row_monotone(k, self.len() - 1);
        self.lemma_row_monotone(j, k);
    }
}

/// Adds the position subtitles: one at each fixed field, made of the fixed
/// lengths and the variable names that precede it. Where inner subtitles
/// are off, the walk ends with the row of the first field.
pub fn push_positions(
    descriptor: &ProtoDescriptor,
    slots: &Vec<Slot>,
    unit: i64,
    field_texts: &mut Vec<FieldText>,
)
    requires
        descriptor@.valid(),
        descriptor@.drawable(),
        descriptor@.aligned(slots@),
        unit == descriptor@.unit(),
    ensures
        views(final(field_texts)@) == views(old(field_texts)@) + descriptor@.position_texts(),
{
    let ghost d = descriptor@;
    let ghost start = views(field_texts@);
    if !descriptor.elements.field_position {
        assert(start =~= start + d.position_texts());
        return ;
    }
    let n: usize = descriptor.fields.len();
    let network: bool = descriptor.elements.network_order;
    let inner: bool = descriptor.elements.inner_subtitles;
    let first: usize = if network {
        0
    } else {
        n - 1
    };
    assert(d.slot_aligned(first as int, slots@[first as int]));
    let start_row: usize = slots[first].row;
    let mut var_length = VarCounts::new();
    let mut fixed_length: usize = 0;
    let mut going: bool = true;
    let mut k: usize = 0;
    proof {
        assert(start =~= start + flat(0, d.position_parts()));
    }
    while going && k < n
        invariant
            d == descriptor@,
            d.valid(),
            d.drawable(),
            d.aligned(slots@),
            d.elements.field_position,
            unit == d.unit(),
            n == d.len(),
            network == d.elements.network_order,
            inner == d.elements.inner_subtitles,
            start_row == d.row(0),
            k <= n,
            !going ==> k < n && !d.position_kept(k as int),
            var_length@ == d.names_upto(k as int),
            fixed_length == d.offset_upto(k as int),
            views(field_texts@) == start + flat(k as int, d.position_parts()),
        decreases n - k + if going { 1int } else { 0int },
    {
        let i: usize = if network {
            k
        } else {
            n - 1 - k
        };
        let slot: &Slot = &slots[i];
        proof {
            assert(k == d.drawn(i as int));
            assert(d.slot_aligned(i as int, slots@[i as int]));
            d.lemma_within_widest(k as int);
            d.lemma_inside_canvas(k as int);
            d.lemma_names_total(k as int);
            d.lemma_offset_monotone(k + 1, n as int);
        }
        // If only outer subtitles are enabled, stop when the row changes
        if !inner && slot.row != start_row {
            going = false;
        } else {
            match &descriptor.fields[k].length {
                FieldLength::Variable(name) => {
                    var_length.add(trim(name.as_str()));
                    assert(views(field_texts@) =~= start + flat(k + 1, d.position_parts()));
                },
                FieldLength::Fixed(length) => {
                    let coordinates = if network {
                        Components { x: slot.x + unit / 2, y: slot.y - DEFAULT_SUB_PADDING }
                    } else {
                        Components {
                            x: slot.x + slot.width - unit / 2,
                            y: slot.y + DEFAULT_SIZE_Y + DEFAULT_SUB_PADDING,
                        }
                    };
                    let text = FieldText {
                        text: create_position_sub(&var_length, fixed_length),
                        coordinates,
                        color: descriptor.style.subtitle_color,
                        baseline: if network {
                            TextBaseline::Auto
                        } else {
                            TextBaseline::Hanging
                        },
                        height: DEFAULT_TEXT_SIZE,
                    };
                    proof {
                        lemma_views_push(field_texts@, text);
                        assert(text@ == d.position_text(k as int));
                        assert(views(field_texts@).push(text@) =~= start + flat(
                            k + 1,
                            d.position_parts(),
                        ));
                    }
                    field_texts.push(text);
                    fixed_length = fixed_length + *length;
                },
            }
            k += 1;
        }
    }
    proof {
        if k < n {
            assert forall|j: int| k <= j < n implies (#[trigger] d.position_parts()(j)).len()
                == 0 by {
                d.lemma_position_kept_prefix(k as int, j);
            }
            lemma_flat_empty_tail(k as int, n as int, d.position_parts());
        }
    }
}

/// Adds the texts of the length subtitles and returns their bars, from the
/// last field to the first. Where inner subtitles are off, the walk ends
/// with the row of the last field.
pub fn push_lengths(
    descriptor: &ProtoDescriptor,
    slots: &Vec<Slot>,
    field_texts: &mut Vec<FieldText>,
) -> (field_lengths: Vec<LengthBar>)
    requires
        descriptor@.valid(),
        descriptor@.drawable(),
        descriptor@.aligned(slots@),
    ensures
        views(field_lengths@) == descriptor@.length_bars(),
        views(final(field_texts)@) == views(old(field_texts)@) + descriptor@.length_texts(),
{
    let ghost d = descriptor@;
    let ghost start = views(field_texts@);
    let mut field_lengths: Vec<LengthBar> = Vec::new();
    if !descriptor.elements.field_length {
        assert(start =~= start + d.length_texts());
        assert(views(field_lengths@) =~= d.length_bars());
        return field_lengths;
    }
    let n: usize = descriptor.fields.len();
    let network: bool = descriptor.elements.network_order;
    let inner: bool = descriptor.elements.inner_subtitles;
    let first: usize = if network {
        n - 1
    } else {
        0
    };
    assert(d.slot_aligned(first as int, slots@[first as int]));
    let start_row: usize = slots[first].row;
    let mut going: bool = true;
    let mut j: usize = 0;
    proof {
        assert(start =~= start + flat(0, d.length_parts()));
        assert(views(field_lengths@) =~= flat(0, d.bar_parts()));
    }
    while going && j < n
        invariant
            d == descriptor@,
            d.valid(),
            d.drawable(),
            d.aligned(slots@),
            d.elements.field_length,
            n == d.len(),
            network == d.elements.network_order,
            inner == d.elements.inner_subtitles,
            start_row == d.row(n - 1),
            j <= n,
            !going ==> j < n && !d.length_kept(n - 1 - j),
            views(field_lengths@) == flat(j as int, d.bar_parts()),
            views(field_texts@) == start + flat(j as int, d.length_parts()),
        decreases n - j + if going { 1int } else { 0int },
    {
        let k: usize = n - 1 - j;
        let i: usize = if network {
            k
        } else {
            j
        };
        let slot: &Slot = &slots[i];
        proof {
            assert(k == d.drawn(i as int));
            assert(d.slot_aligned(i as int, slots@[i as int]));
            d.lemma_within_widest(k as int);
            d.lemma_inside_canvas(k as int);
        }
        // If only outer subtitles are enabled, stop when the row changes
        if !inner && slot.row != start_row {
            going = false;
        } else {
            let bar_y: i64 = if network {
                slot.y + DEFAULT_SIZE_Y + DEFAULT_SUB_PADDING + DEFAULT_LENGTH_SIZE / 2
            } else {
                slot.y - DEFAULT_SUB_PADDING - DEFAULT_LENGTH_SIZE / 2
            };
            let bar = LengthBar {
                coordinates: Components { x: slot.x, y: bar_y },
                size: Components { x: slot.width, y: DEFAULT_LENGTH_SIZE },
                stroke: DEFAULT_STROKE_WIDTH,
                color: descriptor.style.subtitle_color,
            };
            let text = FieldText {
                text: descriptor.fields[k].length.to_string(),
                coordinates: Components {
                    x: slot.x + slot.width / 2,
                    y: if network {
                        bar_y + DEFAULT_LENGTH_SIZE / 2
                    } else {
                        bar_y - DEFAULT_LENGTH_SIZE / 2
                    },
                },
                color: descriptor.style.subtitle_color,
                baseline: if network {
                    TextBaseline::Hanging
                } else {
                    TextBaseline::Auto
                },
                height: DEFAULT_TEXT_SIZE,
            };
            proof {
                lemma_views_push(field_lengths@, bar);
                lemma_views_push(field_texts@, text);
                assert(bar@ == d.length_bar(k as int));
                assert(text@ == d.length_text(k as int));
                assert(views(field_lengths@).push(bar@) =~= flat(j + 1, d.bar_parts()));
                assert(views(field_texts@).push(text@) =~= start + flat(j + 1, d.length_parts()));
            }
            field_lengths.push(bar);
            field_texts.push(text);
            j += 1;
        }
    }
    proof {
        if j < n {
            assert forall|t: int| j <= t < n implies (#[trigger] d.bar_parts()(t)).len()
                == 0 by {
                d.lemma_length_kept_suffix(n - 1 - t, n - 1 - j);
            }
            assert forall|t: int| j <= t < n implies (#[trigger] d.length_parts()(t)).len()
                == 0 by {
                d.lemma_length_kept_suffix(n - 1 - t, n - 1 - j);
            }
            lemma_flat_empty_tail(j as int, n as int, d.bar_parts());
            lemma_flat_empty_tail(j as int, n as int, d.length_parts());
        }
    }
    field_lengths
}

} // verus!
