//! The input of the layout engine: fields, element toggles and style.

use vstd::prelude::*;
use hex_color::HexColor;
use crate::text::{blank, decimal, decimal_string};

verus! {

/// `hex_color::HexColor`, an RGBA colour. Its four channels are public fields
/// of type `u8`, so the declaration lets Verus read them as they are.
#[verifier::external_type_specification]
pub struct ExHexColor(hex_color::HexColor);

/// `HexColor::rgb` builds the colour with the given red, green and blue
/// channels and a fully opaque alpha channel.
pub assume_specification[ HexColor::rgb ](r: u8, g: u8, b: u8) -> (c: HexColor)
    ensures
        c == (HexColor { r, g, b, a: 255 }),
;

/// Enum to hold the length of a field
#[derive(Debug, PartialEq, Clone)]
pub enum FieldLength {
    /// A known number of units.
    Fixed(usize),
    /// A length that is only known by a symbolic name.
    Variable(String),
}

/// The mathematical value of a [`FieldLength`].
pub enum LengthSpec {
    Fixed(nat),
    Variable(Seq<char>),
}

impl LengthSpec {
    /// A fixed length is positive; a symbolic name is not blank.
    pub open spec fn valid(self) -> bool {
        match self {
            LengthSpec::Fixed(n) => n > 0,
            LengthSpec::Variable(name) => !blank(name),
        }
    }

    /// The length as it is written in a subtitle.
    pub open spec fn text(self) -> Seq<char> {
        match self {
            LengthSpec::Fixed(n) => decimal(n),
            LengthSpec::Variable(name) => name,
        }
    }
}

impl View for FieldLength {
    type V = LengthSpec;

    open spec fn view(&self) -> LengthSpec {
        match self {
            FieldLength::Fixed(n) => LengthSpec::Fixed(*n as nat),
            FieldLength::Variable(name) => LengthSpec::Variable(name@),
        }
    }
}

impl FieldLength {
    /// The length as text: the numeral of a fixed length, the name of a variable one.
    pub fn to_string(&self) -> (s: String)
        ensures
            s@ == self@.text(),
    {
        match self {
            FieldLength::Fixed(length) => decimal_string(*length),
            FieldLength::Variable(name) => name.clone(),
        }
    }
}

/// Struct to hold the options for a field
#[derive(Debug, Clone)]
pub struct FieldDescriptor {
    pub name: String,
    pub length: FieldLength,
    /// Whether to wrap at the end of the field
    pub wrap: bool,
    /// Color of the field
    pub color: Option<HexColor>,
}

/// The mathematical value of a [`FieldDescriptor`].
pub struct FieldSpec {
    pub name: Seq<char>,
    pub length: LengthSpec,
    pub wrap: bool,
    pub color: Option<HexColor>,
}

impl View for FieldDescriptor {
    type V = FieldSpec;

    open spec fn view(&self) -> FieldSpec {
        FieldSpec { name: self.name@, length: self.length@, wrap: self.wrap, color: self.color }
    }
}

/// Struct to hold the options for the image elements
#[derive(Debug, Clone, Copy)]
pub struct ElementsDescriptor {
    /// Whether it is a network protocol (big endian): fields run left to right
    pub network_order: bool,
    /// Whether to show the position of the fields
    pub field_position: bool,
    /// Whether to show the length of the fields
    pub field_length: bool,
    /// Whether to show the wrap line
    pub wrap_line: bool,
    /// Whether to show the start symbol
    pub start_symbol: bool,
    /// Whether every row carries its subtitles, or only the outermost one
    pub inner_subtitles: bool,
}

impl ElementsDescriptor {
    /// Every element shown, fields running left to right.
    pub open spec fn all_on() -> ElementsDescriptor {
        ElementsDescriptor {
            network_order: true,
            field_position: true,
            field_length: true,
            wrap_line: true,
            start_symbol: true,
            inner_subtitles: true,
        }
    }
}

impl Default for ElementsDescriptor {
    fn default() -> (e: Self)
        ensures
            e == ElementsDescriptor::all_on(),
    {
        Self {
            network_order: default_true(),
            field_position: default_true(),
            field_length: default_true(),
            wrap_line: default_true(),
            start_symbol: default_true(),
            inner_subtitles: default_true(),
        }
    }
}

/// The value of a toggle that the input leaves out.
pub fn default_true() -> (b: bool)
    ensures
        b,
{
    true
}

/// Struct to hold the options for the image style
#[derive(Debug, Clone, Copy)]
pub struct StyleDescriptor {
    /// Background color of the image
    pub background_color: HexColor,
    /// Color of the field background
    pub field_color: HexColor,
    /// Text color of the image (field names + stroke)
    pub text_color: HexColor,
    /// Color of the subtitle text (field length and position)
    pub subtitle_color: HexColor,
    /// Width of a field unit in the image
    pub unit_width: usize,
    /// Units that a field of variable length takes up in the image
    pub dyn_units: usize,
}

impl StyleDescriptor {
    /// Black on white, a unit of 50 and three units for a variable field.
    pub open spec fn plain() -> StyleDescriptor {
        StyleDescriptor {
            background_color: white(),
            field_color: white(),
            text_color: black(),
            subtitle_color: black(),
            unit_width: 50,
            dyn_units: 3,
        }
    }
}

impl Default for StyleDescriptor {
    fn default() -> (s: Self)
        ensures
            s == StyleDescriptor::plain(),
    {
        Self {
            background_color: default_white(),
            field_color: default_white(),
            text_color: default_black(),
            subtitle_color: default_black(),
            unit_width: default_50(),
            dyn_units: default_3(),
        }
    }
}

/// Opaque white.
pub open spec fn white() -> HexColor {
    HexColor { r: 255, g: 255, b: 255, a: 255 }
}

/// Opaque black.
pub open spec fn black() -> HexColor {
    HexColor { r: 0, g: 0, b: 0, a: 255 }
}

/// The colour of a background that the input leaves out.
pub fn default_white() -> (c: HexColor)
    ensures
        c == white(),
{
    HexColor::rgb(255, 255, 255)
}

/// The colour of text that the input leaves out.
pub fn default_black() -> (c: HexColor)
    ensures
        c == black(),
{
    HexColor::rgb(0, 0, 0)
}

/// The unit width that the input leaves out.
pub fn default_50() -> (w: usize)
    ensures
        w == 50,
{
    50
}

/// The number of units of a variable field that the input leaves out.
pub fn default_3() -> (u: usize)
    ensures
        u == 3,
{
    3
}

/// Struct to hold the options for a protocol
#[derive(Debug, Clone)]
pub struct ProtoDescriptor {
    /// Options for the image elements
    pub elements: ElementsDescriptor,
    /// Options for the image style
    pub style: StyleDescriptor,
    /// List of fields the protocol contains
    pub fields: Vec<FieldDescriptor>,
}

/// The mathematical value of a [`ProtoDescriptor`].
pub struct ProtoSpec {
    pub elements: ElementsDescriptor,
    pub style: StyleDescriptor,
    pub fields: Seq<FieldSpec>,
}

impl View for ProtoDescriptor {
    type V = ProtoSpec;

    open spec fn view(&self) -> ProtoSpec {
        ProtoSpec {
            elements: self.elements,
            style: self.style,
            fields: self.fields@.map_values(|f: FieldDescriptor| f@),
        }
    }
}

impl Default for ProtoDescriptor {
    fn default() -> (d: Self)
        ensures
            d@ == (ProtoSpec {
                elements: ElementsDescriptor::all_on(),
                style: StyleDescriptor::plain(),
                fields: Seq::empty(),
            }),
    {
        let d = Self {
            elements: ElementsDescriptor::default(),
            style: StyleDescriptor::default(),
            fields: Vec::new(),
        };
        assert(d@.fields =~= Seq::empty());
        d
    }
}

} // verus!
