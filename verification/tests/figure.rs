use hex_color::HexColor;
use protoviz::descriptor::{
    ElementsDescriptor, FieldDescriptor, FieldLength, ProtoDescriptor, StyleDescriptor,
};
use protoviz::shapes::{Components, FieldText, TextBaseline, SCALE};
use protoviz::template::{generate_data, TemplateData};
use protoviz::{layout, validate};

/// Sub-units of a whole number of quarter units.
fn q(quarters: i64) -> i64 {
    quarters * SCALE / 4
}

/// Sub-units of a whole number of units.
fn u(units: i64) -> i64 {
    units * SCALE
}

fn at(x: i64, y: i64) -> Components {
    Components { x: u(x), y: u(y) }
}

fn fixed(name: &str, length: usize, wrap: bool) -> FieldDescriptor {
    FieldDescriptor { name: name.to_string(), length: FieldLength::Fixed(length), wrap, color: None }
}

fn variable(name: &str, length: &str, wrap: bool) -> FieldDescriptor {
    FieldDescriptor {
        name: name.to_string(),
        length: FieldLength::Variable(length.to_string()),
        wrap,
        color: None,
    }
}

fn style(unit_width: usize, dyn_units: usize) -> StyleDescriptor {
    StyleDescriptor {
        background_color: HexColor::rgb(255, 255, 255),
        field_color: HexColor::rgb(255, 255, 255),
        text_color: HexColor::rgb(0, 0, 0),
        subtitle_color: HexColor::rgb(0, 0, 0),
        unit_width,
        dyn_units,
    }
}

fn all_on() -> ElementsDescriptor {
    ElementsDescriptor {
        network_order: true,
        inner_subtitles: true,
        field_position: true,
        field_length: true,
        wrap_line: true,
        start_symbol: true,
    }
}

fn five_fields() -> ProtoDescriptor {
    ProtoDescriptor {
        elements: all_on(),
        style: style(50, 3),
        fields: vec![
            fixed("field0", 1, false),
            fixed("field1", 2, false),
            fixed("field2", 1, false),
            variable("field3", "N", false),
            fixed("field4", 1, false),
        ],
    }
}

fn wrapped_reversed() -> ProtoDescriptor {
    let mut elements = all_on();
    elements.network_order = false;
    ProtoDescriptor {
        elements,
        style: style(20, 4),
        fields: vec![
            fixed("A", 2, true),
            variable("B", "len", false),
            fixed("C", 1, true),
            fixed("D", 3, false),
        ],
    }
}

fn wrapped_outer_only() -> ProtoDescriptor {
    let mut elements = all_on();
    elements.inner_subtitles = false;
    elements.wrap_line = false;
    elements.start_symbol = false;
    ProtoDescriptor {
        elements,
        style: style(10, 3),
        fields: vec![
            fixed("a", 1, true),
            fixed("b", 1, false),
            variable("c", "x", true),
            fixed("d", 2, false),
        ],
    }
}

fn texts(data: &TemplateData) -> Vec<&str> {
    data.field_texts.iter().map(|t| t.text.as_str()).collect()
}

fn text_at<'a>(data: &'a TemplateData, text: &str) -> &'a FieldText {
    data.field_texts.iter().find(|t| t.text == text).unwrap()
}

#[test]
fn test_render() {
    let descriptor = five_fields();
    let result = layout(&descriptor).unwrap();
    assert!(texts(&result).contains(&"field1"));
    assert!(texts(&result).contains(&"field3"));
    assert!(result.size.x > u(5 * 50 + 2 * 50));
}

#[test]
fn five_fields_in_network_order() {
    let data = generate_data(&five_fields());
    assert_eq!(data.size, at(500, 180));
    assert_eq!(data.background, HexColor::rgb(255, 255, 255));

    let rects: Vec<(Components, Components)> =
        data.static_fields.iter().map(|r| (r.coordinates, r.size)).collect();
    assert_eq!(
        rects,
        vec![
            (at(50, 50), at(50, 80)),
            (at(100, 50), at(100, 80)),
            (at(200, 50), at(50, 80)),
            (at(400, 50), at(50, 80)),
        ]
    );
    assert_eq!(data.static_fields[0].stroke_width, u(2));
    assert_eq!(data.static_fields[0].stroke_color, HexColor::rgb(0, 0, 0));

    assert_eq!(data.dynamic_fields.len(), 1);
    let dynamic = &data.dynamic_fields[0];
    assert_eq!(dynamic.coordinates, at(250, 50));
    assert_eq!(dynamic.size.x1, u(95));
    assert_eq!(dynamic.size.x2, u(45));
    assert_eq!(dynamic.size.spacing, u(10));
    assert_eq!(dynamic.size.delta, u(25));
    assert_eq!(dynamic.size.y, u(80));

    let ticks: Vec<(Components, Components)> =
        data.field_ticks.iter().map(|t| (t.coordinates, t.size)).collect();
    assert_eq!(ticks, vec![(at(150, 50), at(2, 20)), (at(150, 110), at(2, 20))]);

    assert_eq!(
        texts(&data),
        vec![
            "field0", "field1", "field2", "field3", "field4", "0", "1", "3", "4+N", "1", "N", "1",
            "2", "1"
        ]
    );
    let anchors: Vec<Components> = data.field_texts.iter().map(|t| t.coordinates).collect();
    assert_eq!(
        anchors,
        vec![
            at(75, 90),
            at(150, 90),
            at(225, 90),
            Components { x: q(1190), y: u(90) },
            at(425, 90),
            at(75, 40),
            at(125, 40),
            at(225, 40),
            at(425, 40),
            at(425, 150),
            at(325, 150),
            at(225, 150),
            at(150, 150),
            at(75, 150),
        ]
    );
    assert_eq!(data.field_texts[0].baseline, TextBaseline::Middle);
    assert_eq!(data.field_texts[5].baseline, TextBaseline::Auto);
    assert_eq!(data.field_texts[9].baseline, TextBaseline::Hanging);
    assert_eq!(data.field_texts[0].height, u(16));

    let bars: Vec<(Components, Components)> =
        data.field_lengths.iter().map(|b| (b.coordinates, b.size)).collect();
    assert_eq!(
        bars,
        vec![
            (at(400, 145), at(50, 10)),
            (at(250, 145), at(150, 10)),
            (at(200, 145), at(50, 10)),
            (at(100, 145), at(100, 10)),
            (at(50, 145), at(50, 10)),
        ]
    );
    assert!(data.wrap_lines.is_empty());
    let symbol = data.start_symbol.unwrap();
    assert_eq!(symbol.coordinates, at(40, 90));
    assert_eq!(symbol.size, at(-10, 20));
}

#[test]
fn wrapped_rows_right_to_left() {
    let data = generate_data(&wrapped_reversed());
    assert_eq!(data.size, at(200, 484));

    let rects: Vec<(Components, Components)> =
        data.static_fields.iter().map(|r| (r.coordinates, r.size)).collect();
    assert_eq!(
        rects,
        vec![(at(90, 50), at(60, 80)), (at(50, 202), at(20, 80)), (at(110, 354), at(40, 80))]
    );
    assert_eq!(data.dynamic_fields.len(), 1);
    let dynamic = &data.dynamic_fields[0];
    assert_eq!(dynamic.coordinates, at(70, 202));
    assert_eq!(dynamic.size.x1, u(55));
    assert_eq!(dynamic.size.x2, u(15));
    assert_eq!(dynamic.size.spacing, u(10));
    assert_eq!(dynamic.size.delta, u(10));

    let ticks: Vec<Components> = data.field_ticks.iter().map(|t| t.coordinates).collect();
    assert_eq!(
        ticks,
        vec![at(110, 50), at(110, 110), at(130, 50), at(130, 110), at(130, 354), at(130, 414)]
    );

    assert_eq!(data.wrap_lines.len(), 2);
    assert_eq!(data.wrap_lines[0].start, at(150, 90));
    assert_eq!(data.wrap_lines[0].end, at(50, 242));
    assert_eq!(data.wrap_lines[1].start, at(150, 242));
    assert_eq!(data.wrap_lines[1].end, at(110, 394));
    assert_eq!(data.wrap_lines[0].center_delta, u(71));
    assert_eq!(data.wrap_lines[0].padding, u(25));
    assert_eq!(data.wrap_lines[0].stroke, u(2));

    assert_eq!(
        texts(&data),
        vec!["D", "C", "B", "A", "0", "2+len", "3+len", "3", "1", "len", "2"]
    );
    let anchors: Vec<Components> = data.field_texts.iter().map(|t| t.coordinates).collect();
    assert_eq!(
        anchors,
        vec![
            at(120, 90),
            at(60, 242),
            Components { x: q(390), y: u(242) },
            at(130, 394),
            at(140, 444),
            at(60, 292),
            at(140, 140),
            at(120, 30),
            at(60, 182),
            at(110, 182),
            at(130, 334),
        ]
    );
    assert_eq!(data.field_texts[4].baseline, TextBaseline::Hanging);
    assert_eq!(data.field_texts[7].baseline, TextBaseline::Auto);

    let bars: Vec<(Components, Components)> =
        data.field_lengths.iter().map(|b| (b.coordinates, b.size)).collect();
    assert_eq!(
        bars,
        vec![
            (at(90, 35), at(60, 10)),
            (at(50, 187), at(20, 10)),
            (at(70, 187), at(80, 10)),
            (at(110, 339), at(40, 10)),
        ]
    );
    let symbol = data.start_symbol.unwrap();
    assert_eq!(symbol.coordinates, at(160, 394));
    assert_eq!(symbol.size, at(10, 20));
}

#[test]
fn only_the_outer_rows_carry_subtitles() {
    let data = generate_data(&wrapped_outer_only());
    assert_eq!(data.size, at(140, 340));
    let rects: Vec<Components> = data.static_fields.iter().map(|r| r.coordinates).collect();
    assert_eq!(rects, vec![at(50, 50), at(50, 130), at(50, 210)]);
    let dynamic = &data.dynamic_fields[0];
    assert_eq!(dynamic.coordinates, at(60, 130));
    assert_eq!(dynamic.size.x1, q(70));
    assert_eq!(dynamic.size.x2, q(30));
    assert_eq!(dynamic.size.spacing, u(5));
    assert_eq!(dynamic.size.delta, u(5));
    assert_eq!(texts(&data), vec!["a", "b", "c", "d", "0", "2"]);
    assert_eq!(text_at(&data, "c").coordinates, Components { x: q(275), y: u(170) });
    assert_eq!(text_at(&data, "0").coordinates, at(55, 40));
    assert_eq!(text_at(&data, "2").coordinates, at(60, 310));
    assert_eq!(data.field_lengths.len(), 1);
    assert_eq!(data.field_lengths[0].coordinates, at(50, 305));
    assert!(data.wrap_lines.is_empty());
    assert!(data.start_symbol.is_none());
}

#[test]
fn a_field_keeps_its_own_colour() {
    let mut descriptor = five_fields();
    descriptor.style.field_color = HexColor::rgb(1, 2, 3);
    descriptor.fields[1].color = Some(HexColor::rgb(9, 8, 7));
    descriptor.fields[3].color = Some(HexColor::rgb(4, 5, 6));
    let data = generate_data(&descriptor);
    assert_eq!(data.static_fields[0].background, HexColor::rgb(1, 2, 3));
    assert_eq!(data.static_fields[1].background, HexColor::rgb(9, 8, 7));
    assert_eq!(data.dynamic_fields[0].background, HexColor::rgb(4, 5, 6));
}

#[test]
fn position_subtitles_are_cumulative() {
    let descriptor = ProtoDescriptor {
        elements: all_on(),
        style: style(50, 3),
        fields: vec![
            fixed("a", 1, false),
            fixed("b", 2, false),
            variable("c", "N", false),
            fixed("d", 1, false),
        ],
    };
    let data = generate_data(&descriptor);
    let positions: Vec<&str> = texts(&data)[4..7].to_vec();
    assert_eq!(positions, vec!["0", "1", "3+N"]);
}

#[test]
fn trailing_variable_fields_get_no_position_subtitle() {
    let mut elements = all_on();
    elements.field_length = false;
    let descriptor = ProtoDescriptor {
        elements,
        style: style(50, 3),
        fields: vec![fixed("a", 4, false), variable("b", "N", false), variable("c", "M", false)],
    };
    let data = generate_data(&descriptor);
    assert_eq!(texts(&data), vec!["a", "b", "c", "0"]);
}

#[test]
fn repeated_names_are_counted_after_trimming() {
    let mut elements = all_on();
    elements.field_length = false;
    let descriptor = ProtoDescriptor {
        elements,
        style: style(50, 3),
        fields: vec![
            variable("a", "N", false),
            variable("b", " N ", false),
            variable("c", "M", false),
            fixed("d", 1, false),
            fixed("e", 1, false),
        ],
    };
    let data = generate_data(&descriptor);
    assert_eq!(texts(&data), vec!["a", "b", "c", "d", "e", "2N+M", "1+2N+M"]);
}

#[test]
fn a_fixed_field_has_a_tick_pair_on_each_inner_boundary() {
    for n in 1..7usize {
        let descriptor = ProtoDescriptor {
            elements: all_on(),
            style: style(10, 3),
            fields: vec![fixed("f", n, false)],
        };
        let data = generate_data(&descriptor);
        assert_eq!(data.field_ticks.len(), 2 * (n - 1));
        for t in 1..n {
            let upper = &data.field_ticks[2 * (t - 1)];
            let lower = &data.field_ticks[2 * (t - 1) + 1];
            assert_eq!(upper.coordinates, at(50 + 10 * t as i64, 50));
            assert_eq!(lower.coordinates, at(50 + 10 * t as i64, 110));
        }
    }
}

#[test]
fn a_wrapping_field_ends_its_row() {
    let descriptor = ProtoDescriptor {
        elements: all_on(),
        style: style(10, 3),
        fields: vec![fixed("a", 1, false), fixed("b", 1, true), fixed("c", 1, false)],
    };
    let data = generate_data(&descriptor);
    let tops: Vec<i64> = data.static_fields.iter().map(|r| r.coordinates.y).collect();
    assert_eq!(tops[0], tops[1]);
    assert_eq!(tops[2], tops[1] + u(152));
    assert_eq!(data.static_fields[2].coordinates.x, u(50));
    assert_eq!(data.wrap_lines.len(), 1);
    assert_eq!(data.wrap_lines[0].start, at(70, 90));
    assert_eq!(data.wrap_lines[0].end, at(50, 242));
    assert_eq!(data.wrap_lines[0].center_delta, u(81));
}

#[test]
fn wrap_is_ignored_on_the_last_field() {
    let mut descriptor = five_fields();
    descriptor.fields[4].wrap = true;
    let data = generate_data(&descriptor);
    assert_eq!(data.size, at(500, 180));
    assert!(data.wrap_lines.is_empty());
    descriptor.elements.network_order = false;
    let data = generate_data(&descriptor);
    assert_eq!(data.size, at(500, 180));
    assert!(data.wrap_lines.is_empty());
}

#[test]
fn reversing_the_order_mirrors_the_rectangles() {
    let mut descriptor = wrapped_reversed();
    let reversed = generate_data(&descriptor);
    descriptor.elements.network_order = true;
    let network = generate_data(&descriptor);
    assert_eq!(network.size, reversed.size);
    let n = network.static_fields.len();
    assert_eq!(n, 3);
    for i in 0..n {
        let a = &network.static_fields[i];
        let b = &reversed.static_fields[n - 1 - i];
        assert_eq!(a.size, b.size);
        assert_eq!(a.coordinates.x + b.coordinates.x + b.size.x, network.size.x);
    }
    let m = descriptor.fields.len();
    for i in 0..m {
        assert_eq!(network.field_texts[i].text, reversed.field_texts[m - 1 - i].text);
    }
}

#[test]
fn the_same_descriptor_gives_the_same_figure() {
    for descriptor in [five_fields(), wrapped_reversed(), wrapped_outer_only()] {
        let once = format!("{:?}", generate_data(&descriptor));
        let twice = format!("{:?}", generate_data(&descriptor));
        assert_eq!(once, twice);
    }
}

#[test]
fn the_canvas_holds_every_row_between_its_margins() {
    for descriptor in [five_fields(), wrapped_reversed(), wrapped_outer_only()] {
        let data = generate_data(&descriptor);
        assert!(data.size.x > 0 && data.size.y > 0);
        for r in &data.static_fields {
            assert!(r.coordinates.x >= u(50));
            assert!(r.coordinates.x + r.size.x + u(50) <= data.size.x);
            assert!(r.coordinates.y + r.size.y + u(50) <= data.size.y);
        }
    }
    let data = generate_data(&five_fields());
    assert_eq!(data.size.x, u(50 + 100 + 50 + 150 + 50 + 2 * 50));
}

#[test]
fn the_gap_of_a_variable_field_follows_the_unit_width() {
    let cases = [(10, q(20)), (19, q(38)), (20, u(10)), (49, u(10)), (50, u(10)), (100, u(20))];
    for (unit_width, spacing) in cases {
        let descriptor = ProtoDescriptor {
            elements: all_on(),
            style: style(unit_width, 5),
            fields: vec![variable("v", "N", false)],
        };
        let data = generate_data(&descriptor);
        let size = data.dynamic_fields[0].size;
        let unit = u(unit_width as i64);
        assert_eq!(size.spacing, spacing);
        assert_eq!(size.x1, 4 * unit - spacing / 2);
        assert_eq!(size.x2, unit - spacing / 2);
        assert_eq!(size.delta, unit / 2);
        assert_eq!(size.x1 + size.spacing + size.x2, 5 * unit);
    }
}

fn complaint(descriptor: &ProtoDescriptor) -> String {
    match validate(descriptor) {
        Err(protoviz::errors::Error::FormatError(message)) => message,
        other => panic!("expected a format error, got {:?}", other),
    }
}

#[test]
fn validation_rejects_what_cannot_be_drawn() {
    let mut descriptor = five_fields();
    assert!(validate(&descriptor).is_ok());

    descriptor.fields.clear();
    assert_eq!(complaint(&descriptor), "No fields provided");

    let mut descriptor = five_fields();
    descriptor.style.unit_width = 9;
    assert_eq!(complaint(&descriptor), "Unit width cannot be less than 10");
    descriptor.style.unit_width = 10;
    assert!(validate(&descriptor).is_ok());

    descriptor.style.dyn_units = 2;
    assert_eq!(complaint(&descriptor), "Dynamic units cannot be less than 3");
    descriptor.style.dyn_units = 3;

    descriptor.fields[2].length = FieldLength::Fixed(0);
    assert_eq!(complaint(&descriptor), "Field length cannot be zero");
    descriptor.fields[1].length = FieldLength::Variable("".to_string());
    assert_eq!(complaint(&descriptor), "Field length cannot be empty");
    descriptor.fields[1].length = FieldLength::Variable(" \t\u{a0}".to_string());
    assert_eq!(complaint(&descriptor), "Field length cannot be empty");
}

#[test]
fn layout_validates_first() {
    let mut descriptor = five_fields();
    descriptor.style.unit_width = 9;
    match layout(&descriptor) {
        Err(protoviz::errors::Error::FormatError(message)) => {
            assert_eq!(message, "Unit width cannot be less than 10")
        }
        other => panic!("expected a format error, got {:?}", other),
    }
}

#[test]
fn layout_refuses_a_figure_beyond_the_machine() {
    let mut descriptor = five_fields();
    descriptor.fields[1].length = FieldLength::Fixed(usize::MAX);
    match layout(&descriptor) {
        Err(protoviz::errors::Error::FormatError(message)) => {
            assert_eq!(message, "Figure is too large")
        }
        other => panic!("expected a format error, got {:?}", other),
    }
    descriptor.fields[1].length = FieldLength::Fixed(2);
    descriptor.style.unit_width = 1 << 60;
    assert!(layout(&descriptor).is_err());
    descriptor.style.unit_width = 1 << 55;
    assert!(layout(&descriptor).is_err());
    descriptor.style.unit_width = 1 << 50;
    let data = layout(&descriptor).unwrap();
    assert_eq!(data.size.x, ((8i64 << 50) + 100) * SCALE);
}
