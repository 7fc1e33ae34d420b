//! Controlled-vocabulary and user parameters, and how they are read from the
//! attributes of an element.

use crate::views::optional_text;
use crate::text::text_eq;
use crate::xml::{raw_attribute, unescape, xml_unescaped, Attribute, StartElement, XmlError};
use vstd::prelude::*;

verus! {

/// A parameter of an element: a `cvParam` or a `userParam`.
#[derive(Debug)]
pub struct Param {
    pub name: String,
    pub value: String,
    pub accession: String,
    pub unit_accession: String,
}

/// A parameter as a plain value.
pub struct ParamView {
    pub name: Seq<char>,
    pub value: Seq<char>,
    pub accession: Seq<char>,
    pub unit_accession: Seq<char>,
}

impl View for Param {
    type V = ParamView;

    open spec fn view(&self) -> ParamView {
        ParamView {
            name: self.name@,
            value: self.value@,
            accession: self.accession@,
            unit_accession: self.unit_accession@,
        }
    }
}

/// The text of the first attribute named `key`, unescaped: empty where there
/// is no such attribute, `None` where the value cannot be unescaped.
pub open spec fn attribute_text(attributes: Seq<Attribute>, key: Seq<char>) -> Option<Seq<char>> {
    match raw_attribute(attributes, key) {
        Some(raw) => xml_unescaped(raw),
        None => Some(Seq::<char>::empty()),
    }
}

/// Reads the first attribute named `key` and unescapes its value. An
/// attribute that is not there reads as the empty text.
pub fn read_attribute(attributes: &Vec<Attribute>, key: &str) -> (r: Option<String>)
    ensures
        optional_text(r) == attribute_text(attributes@, key@),
{
    let mut i: usize = 0;
    proof {
        assert(attributes@.skip(0) =~= attributes@);
    }
    while i < attributes.len()
        invariant
            i <= attributes@.len(),
            raw_attribute(attributes@, key@) == raw_attribute(attributes@.skip(i as int), key@),
        decreases attributes@.len() - i,
    {
        proof {
            let rest = attributes@.skip(i as int);
            assert(rest[0] == attributes@[i as int]);
            assert(rest.skip(1) =~= attributes@.skip(i + 1));
        }
        if text_eq(attributes[i].key.as_str(), key) {
            return unescape(attributes[i].value.as_str());
        }
        i = i + 1;
    }
    Some(String::new())
}

/// The parameter that an element spells with its attributes `name`, `value`,
/// `accession` and `unitAccession`, or the reason why it cannot be read.
pub open spec fn param_of(event: StartElement) -> Result<ParamView, XmlError> {
    if event.malformed {
        Err(XmlError::MalformedAttribute)
    } else {
        match (
            attribute_text(event.attributes@, "name"@),
            attribute_text(event.attributes@, "value"@),
            attribute_text(event.attributes@, "accession"@),
            attribute_text(event.attributes@, "unitAccession"@),
        ) {
            (Some(name), Some(value), Some(accession), Some(unit_accession)) => Ok(
                ParamView { name, value, accession, unit_accession },
            ),
            _ => Err(XmlError::Escape),
        }
    }
}

/// Whether an element of this name spells a parameter.
pub open spec fn names_param(name: Seq<char>) -> bool {
    name == "cvParam"@ || name == "userParam"@
}

impl Param {
    /// Whether an element of this name spells a parameter.
    pub fn is_param(name: &str) -> (r: bool)
        ensures
            r == names_param(name@),
    {
        text_eq(name, "cvParam") || text_eq(name, "userParam")
    }

    /// Reads a parameter from the attributes of `event`.
    pub fn from_element(event: &StartElement) -> (r: Result<Param, XmlError>)
        ensures
            match r {
                Ok(param) => param_of(*event) == Ok::<ParamView, XmlError>(param@),
                Err(error) => param_of(*event) == Err::<ParamView, XmlError>(error),
            },
    {
        if event.malformed {
            return Err(XmlError::MalformedAttribute);
        }
        let name = read_attribute(&event.attributes, "name");
        let value = read_attribute(&event.attributes, "value");
        let accession = read_attribute(&event.attributes, "accession");
        let unit_accession = read_attribute(&event.attributes, "unitAccession");
        match (name, value, accession, unit_accession) {
            (Some(name), Some(value), Some(accession), Some(unit_accession)) => Ok(
                Param { name, value, accession, unit_accession },
            ),
            _ => Err(XmlError::Escape),
        }
    }
}

} // verus!
