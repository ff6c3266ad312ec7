use vstd::prelude::*;
use vstd::string::*;

use crate::error::{outcome, Error, Outcome, Result};
use crate::model::{Field, FieldModel, Payload};
use crate::text::{join3, parse_u128, parsed_unsigned};

verus! {

pub type PayloadModel = Map<Seq<char>, FieldModel>;

/// The text under a name.
pub open spec fn field_text(payload: PayloadModel, name: Seq<char>) -> Option<Seq<char>> {
    if payload.contains_key(name) {
        match payload[name] {
            FieldModel::Text(text) => Some(text),
            _ => None,
        }
    } else {
        None
    }
}

/// The number under a name, if it fits an unsigned 64-bit one.
pub open spec fn field_u64(payload: PayloadModel, name: Seq<char>) -> Option<u64> {
    if payload.contains_key(name) {
        match payload[name] {
            FieldModel::Integer(value) => if 0 <= value <= u64::MAX {
                Some(value as u64)
            } else {
                None
            },
            _ => None,
        }
    } else {
        None
    }
}

/// The number under a name, if it fits a signed 64-bit one.
pub open spec fn field_i64(payload: PayloadModel, name: Seq<char>) -> Option<i64> {
    if payload.contains_key(name) {
        match payload[name] {
            FieldModel::Integer(value) => if i64::MIN <= value <= i64::MAX {
                Some(value as i64)
            } else {
                None
            },
            _ => None,
        }
    } else {
        None
    }
}

pub open spec fn field_flag(payload: PayloadModel, name: Seq<char>) -> Option<bool> {
    if payload.contains_key(name) {
        match payload[name] {
            FieldModel::Flag(value) => Some(value),
            _ => None,
        }
    } else {
        None
    }
}

/// The refusal of a payload that lacks a value.
pub open spec fn missing_field(name: Seq<char>) -> Seq<char> {
    "signed operation is missing '"@ + name + "'"@
}

/// The refusal of a value of the wrong shape.
pub open spec fn malformed_field(name: Seq<char>) -> Seq<char> {
    "signed operation '"@ + name + "' is invalid"@
}

/// The text that an operation has to carry under a name.
pub open spec fn required_text(payload: PayloadModel, name: Seq<char>) -> Outcome<Seq<char>> {
    match field_text(payload, name) {
        Some(text) => Ok(text),
        None => Err(missing_field(name)),
    }
}

/// The amount that an operation has to carry under a name, as a decimal text.
pub open spec fn required_amount(payload: PayloadModel, name: Seq<char>) -> Outcome<u128> {
    match field_text(payload, name) {
        None => Err(missing_field(name)),
        Some(text) => match parsed_unsigned(text, u128::MAX as nat) {
            Some(amount) => Ok(amount as u128),
            None => Err(malformed_field(name)),
        },
    }
}

impl Payload {
    /// The value under a name.
    pub fn get(&self, name: &str) -> (r: Option<&Field>)
        ensures
            match r {
                Some(field) => self.deep_view().contains_key(name@) && field.deep_view()
                    == self.deep_view()[name@],
                None => !self.deep_view().contains_key(name@),
            },
    {
        self.fields.get(&name.to_owned())
    }

    pub fn text(&self, name: &str) -> (r: Option<&String>)
        ensures
            r.deep_view() == field_text(self.deep_view(), name@),
    {
        match self.get(name) {
            Some(Field::Text(text)) => Some(text),
            _ => None,
        }
    }

    pub fn u64_value(&self, name: &str) -> (r: Option<u64>)
        ensures
            r == field_u64(self.deep_view(), name@),
    {
        match self.get(name) {
            Some(Field::Integer(value)) => if 0 <= *value && *value <= u64::MAX as i128 {
                Some(*value as u64)
            } else {
                None
            },
            _ => None,
        }
    }

    pub fn i64_value(&self, name: &str) -> (r: Option<i64>)
        ensures
            r == field_i64(self.deep_view(), name@),
    {
        match self.get(name) {
            Some(Field::Integer(value)) => if i64::MIN as i128 <= *value && *value
                <= i64::MAX as i128 {
                Some(*value as i64)
            } else {
                None
            },
            _ => None,
        }
    }

    pub fn flag(&self, name: &str) -> (r: Option<bool>)
        ensures
            r == field_flag(self.deep_view(), name@),
    {
        match self.get(name) {
            Some(Field::Flag(value)) => Some(*value),
            _ => None,
        }
    }
}

pub fn malformed(name: &str) -> (r: Error)
    ensures
        r@ == malformed_field(name@),
{
    Error::owned(join3("signed operation '", name, "' is invalid"))
}

/// The text that an operation has to carry under a name.
pub fn payload_str(payload: &Payload, name: &str) -> (r: Result<String>)
    ensures
        outcome(r) == required_text(payload.deep_view(), name@),
{
    match payload.text(name) {
        Some(text) => Ok(text.clone()),
        None => Err(Error::owned(join3("signed operation is missing '", name, "'"))),
    }
}

/// The amount that an operation has to carry under a name.
pub fn parse_payload_u128(payload: &Payload, name: &str) -> (r: Result<u128>)
    ensures
        outcome(r) == required_amount(payload.deep_view(), name@),
{
    match payload.text(name) {
        None => Err(Error::owned(join3("signed operation is missing '", name, "'"))),
        Some(text) => match parse_u128(text.as_str()) {
            Some(amount) => Ok(amount),
            None => Err(malformed(name)),
        },
    }
}

/// The number that an operation has to carry, or the refusal that belongs to it.
pub open spec fn required_u64(payload: PayloadModel, name: Seq<char>, refusal: Seq<char>) -> Outcome<
    u64,
> {
    match field_u64(payload, name) {
        Some(value) => Ok(value),
        None => Err(refusal),
    }
}

pub fn payload_u64(payload: &Payload, name: &str, refusal: &str) -> (r: Result<u64>)
    ensures
        outcome(r) == required_u64(payload.deep_view(), name@, refusal@),
{
    match payload.u64_value(name) {
        Some(value) => Ok(value),
        None => Err(Error::msg(refusal)),
    }
}

pub open spec fn required_i64(payload: PayloadModel, name: Seq<char>, refusal: Seq<char>) -> Outcome<
    i64,
> {
    match field_i64(payload, name) {
        Some(value) => Ok(value),
        None => Err(refusal),
    }
}

pub fn payload_i64(payload: &Payload, name: &str, refusal: &str) -> (r: Result<i64>)
    ensures
        outcome(r) == required_i64(payload.deep_view(), name@, refusal@),
{
    match payload.i64_value(name) {
        Some(value) => Ok(value),
        None => Err(Error::msg(refusal)),
    }
}

} // verus!
