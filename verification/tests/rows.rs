use hex_color::HexColor;
use protoviz::descriptor::{
    ElementsDescriptor, FieldDescriptor, FieldLength, ProtoDescriptor, StyleDescriptor,
};
use protoviz::rows::{align_rows, fits, pitch_of, plan_rows, wrap_line};
use protoviz::shapes::SCALE;

fn descriptor(elements: ElementsDescriptor, wraps: &[bool]) -> ProtoDescriptor {
    ProtoDescriptor {
        elements,
        style: StyleDescriptor {
            background_color: HexColor::WHITE,
            field_color: HexColor::WHITE,
            text_color: HexColor::BLACK,
            subtitle_color: HexColor::rgb(1, 2, 3),
            unit_width: 10,
            dyn_units: 3,
        },
        fields: wraps
            .iter()
            .enumerate()
            .map(|(i, wrap)| FieldDescriptor {
                name: format!("f{}", i),
                length: FieldLength::Fixed(i + 1),
                wrap: *wrap,
                color: None,
            })
            .collect(),
    }
}

fn elements(bits: u32) -> ElementsDescriptor {
    ElementsDescriptor {
        network_order: bits & 1 != 0,
        field_position: bits & 2 != 0,
        field_length: bits & 4 != 0,
        wrap_line: bits & 8 != 0,
        start_symbol: bits & 16 != 0,
        inner_subtitles: bits & 32 != 0,
    }
}

#[test]
fn the_pitch_makes_room_for_what_lies_between_rows() {
    for bits in 0..64u32 {
        let e = elements(bits);
        let mut expected = 80;
        if e.wrap_line || (e.inner_subtitles && (e.field_length || e.field_position)) {
            expected += 20;
        }
        if e.inner_subtitles && e.field_length {
            expected += 31;
        }
        if e.inner_subtitles && e.field_position {
            expected += 21;
        }
        assert_eq!(pitch_of(&descriptor(e, &[false])), expected * SCALE);
    }
    assert_eq!(pitch_of(&descriptor(elements(63), &[false])), 152 * SCALE);
    assert_eq!(pitch_of(&descriptor(elements(0), &[false])), 80 * SCALE);
}

#[test]
fn a_wrap_moves_the_cursor_to_the_next_row() {
    let d = descriptor(elements(63), &[false]);
    let mut x = 123 * SCALE;
    let mut y = 50 * SCALE;
    let line = wrap_line(&d, &mut x, &mut y).unwrap();
    assert_eq!(x, 50 * SCALE);
    assert_eq!(y, 202 * SCALE);
    assert_eq!((line.start.x, line.start.y), (123 * SCALE, 90 * SCALE));
    assert_eq!((line.end.x, line.end.y), (50 * SCALE, 242 * SCALE));
    assert_eq!(line.center_delta, 81 * SCALE);
    assert_eq!(line.padding, 25 * SCALE);
    assert_eq!(line.stroke, 2 * SCALE);
    assert_eq!(line.color, HexColor::rgb(1, 2, 3));

    let d = descriptor(elements(62), &[false]);
    let mut x = 70 * SCALE;
    let mut y = 50 * SCALE;
    let line = wrap_line(&d, &mut x, &mut y).unwrap();
    assert_eq!(line.center_delta, 71 * SCALE);
    assert_eq!(y, 202 * SCALE);

    let d = descriptor(elements(1), &[false]);
    let mut x = 70 * SCALE;
    let mut y = 50 * SCALE;
    assert!(wrap_line(&d, &mut x, &mut y).is_none());
    assert_eq!((x, y), (50 * SCALE, 130 * SCALE));
}

#[test]
fn the_plan_notes_where_each_row_ends() {
    // widths 10, 20, 30, 40, 50 in rows [10, 20], [30], [40, 50]
    let d = descriptor(elements(63), &[false, true, true, false, true]);
    let plan = plan_rows(&d);
    let xs: Vec<i64> = plan.slots.iter().map(|s| s.x / SCALE).collect();
    let rows: Vec<usize> = plan.slots.iter().map(|s| s.row).collect();
    assert_eq!(xs, vec![50, 60, 50, 50, 90]);
    assert_eq!(rows, vec![0, 0, 1, 2, 2]);
    assert_eq!(plan.row_sizes, vec![80 * SCALE, 80 * SCALE, 140 * SCALE]);
    assert_eq!(plan.max_x, 140 * SCALE);
    assert_eq!((plan.x, plan.y), (140 * SCALE, (50 + 2 * 152) * SCALE));
    let wraps: Vec<bool> = plan.slots.iter().map(|s| s.wrap.is_some()).collect();
    assert_eq!(wraps, vec![false, false, true, true, false]);
    let aligned = align_rows(&d, &plan);
    let xs: Vec<i64> = aligned.iter().map(|s| s.x / SCALE).collect();
    assert_eq!(xs, vec![50, 60, 50, 50, 90]);
}

#[test]
fn rows_drawn_right_to_left_end_at_the_widest() {
    let d = descriptor(elements(62), &[false, true, true, false, true]);
    let plan = plan_rows(&d);
    // drawn: f4, f3 | f2 | f1, f0
    let xs: Vec<i64> = plan.slots.iter().map(|s| s.x / SCALE).collect();
    let rows: Vec<usize> = plan.slots.iter().map(|s| s.row).collect();
    assert_eq!(xs, vec![50, 100, 50, 50, 70]);
    assert_eq!(rows, vec![0, 0, 1, 2, 2]);
    assert_eq!(plan.row_sizes, vec![140 * SCALE, 80 * SCALE, 80 * SCALE]);
    let aligned = align_rows(&d, &plan);
    let xs: Vec<i64> = aligned.iter().map(|s| s.x / SCALE).collect();
    assert_eq!(xs, vec![50, 100, 110, 110, 130]);
    for slot in &aligned {
        assert!(slot.x + slot.width <= plan.max_x);
    }
    let first = aligned[2].wrap.unwrap();
    assert_eq!((first.start.x, first.end.x), (140 * SCALE, 110 * SCALE));
    let second = aligned[3].wrap.unwrap();
    assert_eq!((second.start.x, second.end.x), (140 * SCALE, 110 * SCALE));
}

#[test]
fn neighbours_share_a_row_unless_the_first_wraps() {
    for bits in [63u32, 62] {
        let wraps = [false, true, false, false, true, true, false];
        let d = descriptor(elements(bits), &wraps);
        let plan = plan_rows(&d);
        let n = wraps.len();
        let row_of = |k: usize| {
            if bits & 1 != 0 {
                plan.slots[k].row
            } else {
                plan.slots[n - 1 - k].row
            }
        };
        for k in 0..n - 1 {
            assert_eq!(row_of(k) != row_of(k + 1), wraps[k]);
        }
    }
}

#[test]
fn what_fits_the_machine() {
    let mut d = descriptor(elements(63), &[false, true, false]);
    assert!(fits(&d));
    d.style.unit_width = usize::MAX;
    assert!(!fits(&d));
    // both rows are three units wide, and the margins take a hundred
    let widest = ((i64::MAX / SCALE - 100) / 3) as usize;
    d.style.unit_width = widest;
    assert!(fits(&d));
    d.style.unit_width = widest + 1;
    assert!(!fits(&d));
    d.style.unit_width = 10;
    d.fields[2].length = FieldLength::Fixed(usize::MAX);
    assert!(!fits(&d));
}
