//! The polymorphic AMQP value and the string-like types the codec trades
//! in.
//!
//! Floating-point values are carried as their IEEE 754 bit patterns and
//! timestamps as Unix milliseconds: both compare and travel exactly as the
//! wire encoding does, and the engine never computes on either.

use vstd::prelude::*;
use vstd::string::StringExecFns;

use crate::shim::{bytes_copy_from_slice, uuid_from_bytes};

verus! {

/// A UTF-8 string carved out of a frame buffer by the codec.
#[derive(Debug, PartialEq, Eq, Clone)]
pub struct ByteStr {
    s: String,
}

impl View for ByteStr {
    type V = Seq<char>;

    closed spec fn view(&self) -> Seq<char> {
        self.s@
    }
}

impl ByteStr {
    pub fn from_str(s: &str) -> (r: ByteStr)
        ensures
            r@ == s@,
    {
        ByteStr { s: String::from_str(s) }
    }

    pub fn as_str(&self) -> (r: &str)
        ensures
            r@ == self@,
    {
        self.s.as_str()
    }
}

/// A sequence of Unicode characters.
#[derive(Debug, PartialEq, Eq, Clone)]
pub struct Str {
    s: String,
}

impl View for Str {
    type V = Seq<char>;

    closed spec fn view(&self) -> Seq<char> {
        self.s@
    }
}

impl Str {
    pub fn from_str(s: &str) -> (r: Str)
        ensures
            r@ == s@,
    {
        Str { s: String::from_str(s) }
    }

    pub fn from_byte_str(s: ByteStr) -> (r: Str)
        ensures
            r@ == s@,
    {
        Str { s: s.s }
    }

    pub fn as_str(&self) -> (r: &str)
        ensures
            r@ == self@,
    {
        self.s.as_str()
    }

    pub fn as_bytes_str(&self) -> (r: ByteStr)
        ensures
            r@ == self@,
    {
        ByteStr { s: self.s.clone() }
    }
}

/// A symbolic value from a constrained domain.
#[derive(Debug, PartialEq, Eq, Clone)]
pub struct Symbol {
    s: String,
}

impl View for Symbol {
    type V = Seq<char>;

    closed spec fn view(&self) -> Seq<char> {
        self.s@
    }
}

impl Symbol {
    pub fn from_str(s: &str) -> (r: Symbol)
        ensures
            r@ == s@,
    {
        Symbol { s: String::from_str(s) }
    }

    pub fn as_str(&self) -> (r: &str)
        ensures
            r@ == self@,
    {
        self.s.as_str()
    }

    pub fn as_bytes_str(&self) -> (r: ByteStr)
        ensures
            r@ == self@,
    {
        ByteStr { s: self.s.clone() }
    }
}

/// A symbol known at compile time.
#[derive(Debug, PartialEq, Eq, Clone)]
pub struct StaticSymbol {
    pub s: &'static str,
}

/// What a described value is described by.
#[derive(Debug, PartialEq, Eq, Clone)]
pub enum Descriptor {
    Ulong(u64),
    Symbol(Symbol),
}

/// A value paired with its descriptor.
#[derive(Debug, PartialEq)]
pub struct Described {
    pub descriptor: Descriptor,
    pub value: Box<Variant>,
}

/// A list of polymorphic values.
#[derive(Debug, PartialEq)]
pub struct List(pub Vec<Variant>);

/// Represents an AMQP type for use in polymorphic collections.
#[derive(Debug, PartialEq)]
pub enum Variant {
    /// Indicates an empty value.
    Null,
    /// Represents a true or false value.
    Boolean(bool),
    /// Integer in the range 0 to 2^8 - 1 inclusive.
    Ubyte(u8),
    /// Integer in the range 0 to 2^16 - 1 inclusive.
    Ushort(u16),
    /// Integer in the range 0 to 2^32 - 1 inclusive.
    Uint(u32),
    /// Integer in the range 0 to 2^64 - 1 inclusive.
    Ulong(u64),
    /// Integer in the range -2^7 to 2^7 - 1 inclusive.
    Byte(i8),
    /// Integer in the range -2^15 to 2^15 - 1 inclusive.
    Short(i16),
    /// Integer in the range -2^31 to 2^31 - 1 inclusive.
    Int(i32),
    /// Integer in the range -2^63 to 2^63 - 1 inclusive.
    Long(i64),
    /// 32-bit IEEE 754-2008 binary32, carried as its bit pattern.
    Float(u32),
    /// 64-bit IEEE 754-2008 binary64, carried as its bit pattern.
    Double(u64),
    /// A single Unicode character.
    Char(char),
    /// An absolute point in time, as Unix milliseconds.
    Timestamp(i64),
    /// A universally unique identifier as defined by RFC-4122 section 4.1.2.
    Uuid(uuid::Uuid),
    /// A sequence of octets.
    Binary(bytes::Bytes),
    /// A sequence of Unicode characters.
    String(Str),
    /// Symbolic values from a constrained domain.
    Symbol(Symbol),
    /// Same as Symbol but for static values.
    StaticSymbol(StaticSymbol),
    /// List.
    List(List),
    /// Map.
    Mapping(VariantMap),
    /// Described value.
    Described(Described),
}

/// The characters a string-like variant holds.
pub open spec fn spec_variant_str(v: Variant) -> Option<Seq<char>> {
    match v {
        Variant::String(s) => Some(s@),
        Variant::Symbol(s) => Some(s@),
        _ => None,
    }
}

/// The signed 64-bit reading of an integer variant; an unsigned 64-bit
/// value reads as its two's-complement bit pattern, as the codec does.
pub open spec fn spec_variant_long(v: Variant) -> Option<int> {
    match v {
        Variant::Ubyte(x) => Some(x as int),
        Variant::Ushort(x) => Some(x as int),
        Variant::Uint(x) => Some(x as int),
        Variant::Ulong(x) => Some(if x <= i64::MAX {
            x as int
        } else {
            x - 0x1_0000_0000_0000_0000
        }),
        Variant::Byte(x) => Some(x as int),
        Variant::Short(x) => Some(x as int),
        Variant::Int(x) => Some(x as int),
        Variant::Long(x) => Some(x as int),
        _ => None,
    }
}

impl Variant {
    /// The characters of a string or symbol; `None` for every other kind.
    pub fn as_str(&self) -> (r: Option<&str>)
        ensures
            match r {
                Some(s) => spec_variant_str(*self) == Some(s@),
                None => spec_variant_str(*self) is None,
            },
    {
        match self {
            Variant::String(s) => Some(s.as_str()),
            Variant::Symbol(s) => Some(s.as_str()),
            _ => None,
        }
    }

    /// The signed 64-bit reading of an integer variant; `None` for every
    /// other kind.
    pub fn as_long(&self) -> (r: Option<i64>)
        ensures
            match r {
                Some(x) => spec_variant_long(*self) == Some(x as int),
                None => spec_variant_long(*self) is None,
            },
    {
        match self {
            Variant::Ubyte(v) => Some(*v as i64),
            Variant::Ushort(v) => Some(*v as i64),
            Variant::Uint(v) => Some(*v as i64),
            Variant::Ulong(v) => {
                let v0 = *v;
                if v0 <= i64::MAX as u64 {
                    Some(v0 as i64)
                } else {
                    // the two's-complement reading of a value with the high
                    // bit set: v0 - 2^63, shifted down by another 2^63
                    let low = (v0 - 0x8000_0000_0000_0000) as i64;
                    Some(low + i64::MIN)
                }
            },
            Variant::Byte(v) => Some(*v as i64),
            Variant::Short(v) => Some(*v as i64),
            Variant::Int(v) => Some(*v as i64),
            Variant::Long(v) => Some(*v),
            _ => None,
        }
    }

    /// The characters of a string or symbol as a codec string; `None` for
    /// every other kind.
    pub fn as_bytes_str(&self) -> (r: Option<ByteStr>)
        ensures
            match r {
                Some(s) => spec_variant_str(*self) == Some(s@),
                None => spec_variant_str(*self) is None,
            },
    {
        match self {
            Variant::String(s) => Some(s.as_bytes_str()),
            Variant::Symbol(s) => Some(s.as_bytes_str()),
            _ => None,
        }
    }

    /// Whether a string or symbol variant holds exactly these characters;
    /// false for every other kind.
    pub fn eq_str(&self, other: &str) -> (r: bool)
        ensures
            r == (spec_variant_str(*self) == Some(other@)),
    {
        match self {
            Variant::String(s) => {
                let o = String::from_str(other);
                s.s == o
            },
            Variant::Symbol(s) => {
                let o = String::from_str(other);
                s.s == o
            },
            _ => false,
        }
    }

    /// A binary variant holding a copy of the given octets.
    pub fn binary(data: &[u8]) -> (r: Variant)
        ensures
            r matches Variant::Binary(b) && crate::shim::bytes_content(b) == data@,
    {
        Variant::Binary(bytes_copy_from_slice(data))
    }

    /// A UUID variant holding exactly the given octets.
    pub fn uuid(data: [u8; 16]) -> (r: Variant)
        ensures
            r matches Variant::Uuid(u) && crate::shim::uuid_content(u) == data@,
    {
        Variant::Uuid(uuid_from_bytes(data))
    }
}

/// A map of polymorphic keys to polymorphic values, in insertion order.
#[derive(Debug, PartialEq)]
pub struct VariantMap {
    pub map: Vec<(Variant, Variant)>,
}

impl VariantMap {
    pub fn new(map: Vec<(Variant, Variant)>) -> (r: VariantMap)
        ensures
            r.map == map,
    {
        VariantMap { map }
    }
}

/// A map of string keys to polymorphic values, in insertion order.
#[derive(Debug, PartialEq)]
pub struct VecVariantMap(pub Vec<(Str, Variant)>);

impl Default for VecVariantMap {
    fn default() -> (r: VecVariantMap)
        ensures
            r.0@ == Seq::<(Str, Variant)>::empty(),
    {
        VecVariantMap(Vec::new())
    }
}

impl VecVariantMap {
    /// The entries in insertion order.
    pub fn items(&self) -> (r: &Vec<(Str, Variant)>)
        ensures
            r == &self.0,
    {
        &self.0
    }
}

} // verus!
