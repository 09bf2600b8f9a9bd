//! Property keys and one parsed property assignment.

use crate::expression::ExpressionOrRange;
use crate::fixed::{depth_fx, depth_of, spec_depth_fx, spec_depth_of};
use crate::node_properties::NodeProperties;
use crate::text::{eq_ignore_case, spec_lower};
use crate::value_or_range::ValueOrRange;
use vstd::prelude::*;

verus! {

/// One `key value` pair as written on an invocation, before evaluation.
#[derive(PartialEq, Debug)]
pub struct TempProperty {
    pub key: PropertyKey,
    pub value: ExpressionOrRange,
}

/// The broad range a property ranges over, for editor widgets.
#[derive(Clone, Copy, PartialEq, Eq, Structural, Debug)]
pub enum PropertyType {
    AnyPositive,
    Any,
    UnitInterval,
    Degrees,
    IntegerPositive,
    Boolean,
}

impl PropertyType {
    pub open spec fn spec_deconstruct(self) -> (int, int, int) {
        match self {
            PropertyType::UnitInterval => (0, 10_000, 500),
            PropertyType::AnyPositive => (0, 20_000, 500),
            PropertyType::Any => (-20_000, 20_000, 500),
            PropertyType::Degrees => (0, 3_600_000, 50_000),
            PropertyType::Boolean => (0, 10_000, 10_000),
            PropertyType::IntegerPositive => (0, 10_000_000, 10_000),
        }
    }

    /// The fixed-point (minimum, maximum, step) of a slider for this type.
    pub fn deconstruct(self) -> (r: (i64, i64, i64))
        ensures
            (r.0 as int, r.1 as int, r.2 as int) == self.spec_deconstruct(),
    {
        match self {
            PropertyType::UnitInterval => (0, 10_000, 500),
            PropertyType::AnyPositive => (0, 20_000, 500),
            PropertyType::Any => (-20_000, 20_000, 500),
            PropertyType::Degrees => (0, 3_600_000, 50_000),
            PropertyType::Boolean => (0, 10_000, 10_000),
            PropertyType::IntegerPositive => (0, 10_000_000, 10_000),
        }
    }
}

/// The twelve property keys an invocation may assign.
#[derive(Clone, Copy, PartialEq, Eq, Structural, Debug)]
pub enum PropertyKey {
    P,
    L,
    W,
    C,
    X,
    Y,
    R,
    H,
    S,
    V,
    A,
    D,
}

impl PropertyKey {
    pub open spec fn spec_set(self, props: NodeProperties, value: ValueOrRange) -> NodeProperties {
        match self {
            PropertyKey::P => NodeProperties { p: value, ..props },
            PropertyKey::L => NodeProperties { l: value, ..props },
            PropertyKey::W => NodeProperties { w: value, ..props },
            PropertyKey::C => NodeProperties { c: value, ..props },
            PropertyKey::X => NodeProperties { x: value, ..props },
            PropertyKey::Y => NodeProperties { y: value, ..props },
            PropertyKey::R => NodeProperties { r: value, ..props },
            PropertyKey::H => NodeProperties { h: value, ..props },
            PropertyKey::S => NodeProperties { s: value, ..props },
            PropertyKey::V => NodeProperties { v: value, ..props },
            PropertyKey::A => NodeProperties { a: value, ..props },
            PropertyKey::D => NodeProperties {
                d: (match value {
                    ValueOrRange::Value(v) => spec_depth_of(v as int),
                    ValueOrRange::Range { start, end } => spec_depth_of(start as int),
                }) as u64,
                ..props
            },
        }
    }

    /// Store an evaluated value under this key; the depth key rounds to a
    /// whole, non-negative depth (the start of a range decides).
    pub fn set(self, properties: &mut NodeProperties, value: ValueOrRange)
        requires
            old(properties).wf(),
            value.wf(),
        ensures
            *final(properties) == self.spec_set(*old(properties), value),
            final(properties).wf(),
    {
        match self {
            PropertyKey::P => properties.p = value,
            PropertyKey::L => properties.l = value,
            PropertyKey::W => properties.w = value,
            PropertyKey::C => properties.c = value,
            PropertyKey::X => properties.x = value,
            PropertyKey::Y => properties.y = value,
            PropertyKey::R => properties.r = value,
            PropertyKey::H => properties.h = value,
            PropertyKey::S => properties.s = value,
            PropertyKey::V => properties.v = value,
            PropertyKey::A => properties.a = value,
            PropertyKey::D => {
                let v: i64 = match value {
                    ValueOrRange::Value(v) => v,
                    ValueOrRange::Range { start, end } => start,
                };
                properties.d = depth_of(v);
            },
        }
    }

    pub open spec fn spec_get(self, props: NodeProperties) -> ValueOrRange {
        match self {
            PropertyKey::P => props.p,
            PropertyKey::L => props.l,
            PropertyKey::W => props.w,
            PropertyKey::C => props.c,
            PropertyKey::X => props.x,
            PropertyKey::Y => props.y,
            PropertyKey::R => props.r,
            PropertyKey::H => props.h,
            PropertyKey::S => props.s,
            PropertyKey::V => props.v,
            PropertyKey::A => props.a,
            PropertyKey::D => ValueOrRange::Value(spec_depth_fx(props.d as int) as i64),
        }
    }

    /// Read the field this key names; the depth comes back as a scalar.
    pub fn get(self, properties: &NodeProperties) -> (r: ValueOrRange)
        requires
            properties.wf(),
        ensures
            r == self.spec_get(*properties),
            r.wf(),
    {
        match self {
            PropertyKey::P => properties.p,
            PropertyKey::L => properties.l,
            PropertyKey::W => properties.w,
            PropertyKey::C => properties.c,
            PropertyKey::X => properties.x,
            PropertyKey::Y => properties.y,
            PropertyKey::R => properties.r,
            PropertyKey::H => properties.h,
            PropertyKey::S => properties.s,
            PropertyKey::V => properties.v,
            PropertyKey::A => properties.a,
            PropertyKey::D => ValueOrRange::Value(depth_fx(properties.d)),
        }
    }

    pub open spec fn spec_get_type(self) -> PropertyType {
        match self {
            PropertyKey::P => PropertyType::AnyPositive,
            PropertyKey::L => PropertyType::AnyPositive,
            PropertyKey::W => PropertyType::AnyPositive,
            PropertyKey::C => PropertyType::UnitInterval,
            PropertyKey::X => PropertyType::Any,
            PropertyKey::Y => PropertyType::Any,
            PropertyKey::R => PropertyType::Degrees,
            PropertyKey::H => PropertyType::Degrees,
            PropertyKey::S => PropertyType::UnitInterval,
            PropertyKey::V => PropertyType::UnitInterval,
            PropertyKey::A => PropertyType::UnitInterval,
            PropertyKey::D => PropertyType::IntegerPositive,
        }
    }

    /// The broad range this key's values range over.
    pub fn get_type(self) -> (r: PropertyType)
        ensures
            r == self.spec_get_type(),
    {
        match self {
            PropertyKey::P => PropertyType::AnyPositive,
            PropertyKey::L => PropertyType::AnyPositive,
            PropertyKey::W => PropertyType::AnyPositive,
            PropertyKey::C => PropertyType::UnitInterval,
            PropertyKey::X => PropertyType::Any,
            PropertyKey::Y => PropertyType::Any,
            PropertyKey::R => PropertyType::Degrees,
            PropertyKey::H => PropertyType::Degrees,
            PropertyKey::S => PropertyType::UnitInterval,
            PropertyKey::V => PropertyType::UnitInterval,
            PropertyKey::A => PropertyType::UnitInterval,
            PropertyKey::D => PropertyType::IntegerPositive,
        }
    }

    /// Which key a (case-insensitive) one-letter name denotes.
    pub open spec fn spec_key_of(s: Seq<char>) -> Option<PropertyKey> {
        let t = spec_lower(s);
        if t == spec_lower("p"@) {
            Some(PropertyKey::P)
        } else if t == spec_lower("l"@) {
            Some(PropertyKey::L)
        } else if t == spec_lower("w"@) {
            Some(PropertyKey::W)
        } else if t == spec_lower("c"@) {
            Some(PropertyKey::C)
        } else if t == spec_lower("x"@) {
            Some(PropertyKey::X)
        } else if t == spec_lower("y"@) {
            Some(PropertyKey::Y)
        } else if t == spec_lower("r"@) {
            Some(PropertyKey::R)
        } else if t == spec_lower("h"@) {
            Some(PropertyKey::H)
        } else if t == spec_lower("s"@) {
            Some(PropertyKey::S)
        } else if t == spec_lower("v"@) {
            Some(PropertyKey::V)
        } else if t == spec_lower("a"@) {
            Some(PropertyKey::A)
        } else if t == spec_lower("d"@) {
            Some(PropertyKey::D)
        } else {
            None
        }
    }

    /// Recognize a property key name, ignoring ASCII case.
    pub fn from_str(s: &str) -> (r: Option<PropertyKey>)
        ensures
            r == Self::spec_key_of(s@),
    {
        if eq_ignore_case(s, "p") {
            Some(PropertyKey::P)
        } else if eq_ignore_case(s, "l") {
            Some(PropertyKey::L)
        } else if eq_ignore_case(s, "w") {
            Some(PropertyKey::W)
        } else if eq_ignore_case(s, "c") {
            Some(PropertyKey::C)
        } else if eq_ignore_case(s, "x") {
            Some(PropertyKey::X)
        } else if eq_ignore_case(s, "y") {
            Some(PropertyKey::Y)
        } else if eq_ignore_case(s, "r") {
            Some(PropertyKey::R)
        } else if eq_ignore_case(s, "h") {
            Some(PropertyKey::H)
        } else if eq_ignore_case(s, "s") {
            Some(PropertyKey::S)
        } else if eq_ignore_case(s, "v") {
            Some(PropertyKey::V)
        } else if eq_ignore_case(s, "a") {
            Some(PropertyKey::A)
        } else if eq_ignore_case(s, "d") {
            Some(PropertyKey::D)
        } else {
            None
        }
    }
}

} // verus!
