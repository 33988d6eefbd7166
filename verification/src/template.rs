//! The geometry document and the engine that computes it.

use vstd::prelude::*;
use vstd::string::*;
use hex_color::HexColor;
use crate::builder::build_fields;
use crate::counts::{joined, position_sub, position_sub_upto, term, VarCounts};
use crate::descriptor::ProtoDescriptor;
use crate::figure::GeometryDocument;
use crate::rows::{align_rows, plan_rows, unit_of, RowPlan, Slot};
use crate::shapes::{
    flat, lemma_views_push, view_of, views, Components, DynamicFields, FieldText, FieldTicks,
    LengthBar, StartSymbol, StaticFields, WrapLine, DEFAULT_PADDING, DEFAULT_SIZE_Y,
    DEFAULT_START_SYMBOL_X, DEFAULT_START_SYMBOL_Y, DEFAULT_SUB_PADDING,
};
use crate::subtitles::{push_lengths, push_positions};
use crate::text::decimal_string;

verus! {

/// The geometry of one figure: the size and background of the canvas and
/// the shapes on it. Later entries of a list are drawn over earlier ones.
#[derive(Debug)]
pub struct TemplateData {
    pub size: Components,
    pub background: HexColor,
    pub static_fields: Vec<StaticFields>,
    pub dynamic_fields: Vec<DynamicFields>,
    pub field_texts: Vec<FieldText>,
    pub field_ticks: Vec<FieldTicks>,
    pub field_lengths: Vec<LengthBar>,
    pub wrap_lines: Vec<WrapLine>,
    pub start_symbol: Option<StartSymbol>,
}

impl View for TemplateData {
    type V = GeometryDocument;

    open spec fn view(&self) -> GeometryDocument {
        GeometryDocument {
            size: self.size@,
            background: self.background,
            static_fields: views(self.static_fields@),
            dynamic_fields: views(self.dynamic_fields@),
            field_texts: views(self.field_texts@),
            field_ticks: views(self.field_ticks@),
            field_lengths: views(self.field_lengths@),
            wrap_lines: views(self.wrap_lines@),
            start_symbol: view_of(self.start_symbol),
        }
    }
}

/// Generate the data consumed by the template: the figure of `descriptor`.
pub fn generate_data(descriptor: &ProtoDescriptor) -> (data: TemplateData)
    requires
        descriptor@.valid(),
        descriptor@.drawable(),
    ensures
        data@ == descriptor@.geometry(),
{
    let ghost d = descriptor@;
    let unit: i64 = unit_of(descriptor);
    let plan = plan_rows(descriptor);
    let slots = align_rows(descriptor, &plan);
    let shapes = build_fields(descriptor, &slots, unit);
    let wrap_lines = collect_wrap_lines(descriptor, &slots);
    let start_symbol = start_symbol_of(descriptor, &plan);
    let mut field_texts = shapes.field_texts;
    push_positions(descriptor, &slots, unit, &mut field_texts);
    let field_lengths = push_lengths(descriptor, &slots, &mut field_texts);
    proof {
        d.lemma_outer_rows();
        d.lemma_inside_canvas(d.drawn(d.len() - 1));
    }
    TemplateData {
        size: Components {
            x: plan.max_x + DEFAULT_PADDING,
            y: plan.y + DEFAULT_SIZE_Y + DEFAULT_PADDING,
        },
        background: descriptor.style.background_color,
        static_fields: shapes.static_fields,
        dynamic_fields: shapes.dynamic_fields,
        field_texts,
        field_ticks: shapes.field_ticks,
        field_lengths,
        wrap_lines,
        start_symbol,
    }
}

/// The wrap lines of the placed fields, as they are drawn.
pub fn collect_wrap_lines(descriptor: &ProtoDescriptor, slots: &Vec<Slot>) -> (wrap_lines: Vec<
    WrapLine,
>)
    requires
        descriptor@.aligned(slots@),
    ensures
        views(wrap_lines@) == descriptor@.wrap_lines(),
{
    let ghost d = descriptor@;
    let n: usize = slots.len();
    let mut wrap_lines: Vec<WrapLine> = Vec::new();
    let mut i: usize = 0;
    proof {
        assert(views(wrap_lines@) =~= flat(0, d.wrap_parts()));
    }
    while i < n
        invariant
            d == descriptor@,
            d.aligned(slots@),
            n == d.len(),
            i <= n,
            views(wrap_lines@) == flat(i as int, d.wrap_parts()),
        decreases n - i,
    {
        proof {
            assert(d.slot_aligned(i as int, slots@[i as int]));
        }
        match slots[i].wrap {
            Some(line) => {
                proof {
                    lemma_views_push(wrap_lines@, line);
                    assert(views(wrap_lines@).push(line@) =~= flat(i + 1, d.wrap_parts()));
                }
                wrap_lines.push(line);
            },
            None => {
                assert(views(wrap_lines@) =~= flat(i + 1, d.wrap_parts()));
            },
        }
        i += 1;
    }
    wrap_lines
}

/// The start marker, where it is shown: at the margin before the first
/// row in network order, else behind the place where the cursor came to
/// rest, moved right with the last row.
pub fn start_symbol_of(descriptor: &ProtoDescriptor, plan: &RowPlan) -> (symbol: Option<
    StartSymbol,
>)
    requires
        descriptor@.valid(),
        descriptor@.drawable(),
        descriptor@.planned(*plan),
    ensures
        view_of(symbol) == descriptor@.start_marker(),
{
    let ghost d = descriptor@;
    if !descriptor.elements.start_symbol {
        None
    } else if descriptor.elements.network_order {
        Some(
            StartSymbol {
                coordinates: Components {
                    x: DEFAULT_PADDING - DEFAULT_SUB_PADDING,
                    y: DEFAULT_PADDING + DEFAULT_SIZE_Y / 2,
                },
                size: Components { x: -DEFAULT_START_SYMBOL_X, y: DEFAULT_START_SYMBOL_Y },
                color: descriptor.style.subtitle_color,
            },
        )
    } else {
        proof {
            d.lemma_outer_rows();
            d.lemma_within_widest(0);
            d.lemma_inside_canvas(0);
            d.lemma_row_bounds(0);
            assert(plan.row_sizes@[d.row(0)] == DEFAULT_PADDING + d.row_width(0));
        }
        let shift: i64 = plan.max_x - plan.row_sizes[plan.row_sizes.len() - 1];
        Some(
            StartSymbol {
                coordinates: Components {
                    x: plan.x + DEFAULT_SUB_PADDING + shift,
                    y: plan.y + DEFAULT_SIZE_Y / 2,
                },
                size: Components { x: DEFAULT_START_SYMBOL_X, y: DEFAULT_START_SYMBOL_Y },
                color: descriptor.style.subtitle_color,
            },
        )
    }
}

/// Create the position subtitle string
pub fn create_position_sub(var_length: &VarCounts, fixed_length: usize) -> (result: String)
    ensures
        result@ == position_sub(var_length@, fixed_length as nat),
{
    let mut result = String::new();
    if fixed_length > 0 || var_length.is_empty() {
        result = decimal_string(fixed_length);
    }
    let n: usize = var_length.len();
    let mut i: usize = 0;
    while i < n
        invariant
            n == var_length@.len(),
            i <= n,
            result@ == position_sub_upto(var_length@, fixed_length as nat, i as int),
        decreases n - i,
    {
        let ghost before = result@;
        if !result.as_str().is_empty() {
            proof {
                reveal_strlit("+");
            }
            result.append("+");
        }
        let count: usize = var_length.count(i);
        if count != 1 {
            let numeral = decimal_string(count);
            result.append(numeral.as_str());
        }
        result.append(var_length.name(i).as_str());
        assert(result@ =~= joined(before, term(var_length@[i as int])));
        i += 1;
    }
    result
}

} // verus!
