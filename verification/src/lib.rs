//! Geometry of packet-diagram figures for byte-oriented protocols.
//!
//! A [`descriptor::ProtoDescriptor`] lists the fields of a protocol and the
//! style of the figure. [`layout`] checks it and turns it into the
//! [`template::TemplateData`] that a renderer draws: rectangles, tick marks,
//! labels, subtitles, wrap connectors and the start marker.
//! [`validate`] and [`template::generate_data`] are its two halves.
//!
//! What a figure is stands in `layout` and `figure`, as functions of the
//! value of the descriptor; `rows`, `builder` and `subtitles` compute it;
//! `laws` states what holds of every figure.

pub mod text;
pub mod counts;
pub mod descriptor;
pub mod errors;
pub mod shapes;
pub mod layout;
pub mod figure;
pub mod rows;
pub mod builder;
pub mod template;
pub mod subtitles;
pub mod laws;

use vstd::prelude::*;
use vstd::string::*;
use crate::descriptor::{FieldLength, ProtoDescriptor};
use crate::errors::Error;
use crate::rows::fits;
use crate::template::{generate_data, TemplateData};
use crate::text::trim;

verus! {

/// Checks that a figure can be made of `descriptor`: the unit width is at
/// least 10, the dynamic units are at least 3, there is a field, no fixed
/// length is zero and no symbolic length is blank.
pub fn validate(descriptor: &ProtoDescriptor) -> (result: Result<(), Error>)
    ensures
        result is Ok <==> descriptor@.valid(),
        result matches Err(e) ==> e matches Error::FormatError(m) && m@
            == descriptor@.complaint(),
{
    let ghost d = descriptor@;
    if descriptor.style.unit_width < 10 {
        return Err(Error::FormatError(String::from_str("Unit width cannot be less than 10")));
    }
    if descriptor.style.dyn_units < 3 {
        return Err(Error::FormatError(String::from_str("Dynamic units cannot be less than 3")));
    }
    if descriptor.fields.len() == 0 {
        return Err(Error::FormatError(String::from_str("No fields provided")));
    }
    let n: usize = descriptor.fields.len();
    let mut k: usize = 0;
    while k < n
        invariant
            d == descriptor@,
            n == d.len(),
            k <= n,
            d.style.unit_width >= 10,
            d.style.dyn_units >= 3,
            d.first_invalid(0) == d.first_invalid(k as int),
            forall|j: int| 0 <= j < k ==> (#[trigger] d.fields[j]).length.valid(),
        decreases n - k,
    {
        match &descriptor.fields[k].length {
            FieldLength::Fixed(length) => {
                if *length == 0 {
                    return Err(
                        Error::FormatError(String::from_str("Field length cannot be zero")),
                    );
                }
            },
            FieldLength::Variable(name) => {
                if trim(name.as_str()).as_str().is_empty() {
                    return Err(
                        Error::FormatError(String::from_str("Field length cannot be empty")),
                    );
                }
            },
        }
        k += 1;
    }
    Ok(())
}

/// Lays out the figure of `descriptor`, or says why there is none: the
/// descriptor is not valid, or its figure is too large for the machine.
pub fn layout(descriptor: &ProtoDescriptor) -> (result: Result<TemplateData, Error>)
    ensures
        result matches Ok(data) ==> descriptor@.refusal() is None && data@
            == descriptor@.geometry(),
        result matches Err(e) ==> e matches Error::FormatError(m) && descriptor@.refusal()
            == Some(m@),
{
    match validate(descriptor) {
        Err(e) => Err(e),
        Ok(_) => {
            if fits(descriptor) {
                Ok(generate_data(descriptor))
            } else {
                Err(Error::FormatError(String::from_str("Figure is too large")))
            }
        },
    }
}

} // verus!
