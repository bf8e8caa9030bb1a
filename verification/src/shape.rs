//! The input side of the analyzer: a self-contained, read-only description of
//! a type's structure. A `Shape` carries the type's canonical display name and
//! a tagged `Def` saying whether the type is a scalar, a plain struct with
//! ordered fields, a list, a map, an option wrapper, or an enum.

use vstd::prelude::*;

verus! {

/// Whether an integer scalar is signed or unsigned.
#[derive(Clone, Copy, Debug, PartialEq, Eq, Structural)]
pub enum Signedness {
    Signed,
    Unsigned,
}

/// Bit-level layout of a numeric scalar.
#[derive(Clone, Copy, Debug, PartialEq, Eq, Structural)]
pub enum NumberBits {
    /// A binary integer with the given width in bits.
    Integer { bits: u32, sign: Signedness },
    /// A binary floating-point layout, described by its component widths.
    Float { sign_bits: u32, exponent_bits: u32, mantissa_bits: u32 },
    /// A fixed-point layout; no schema mapping is defined for it.
    Fixed { sign_bits: u32, integer_bits: u32, fraction_bits: u32 },
}

/// What kind of value a scalar type holds.
#[derive(Clone, Copy, Debug, PartialEq, Eq, Structural)]
pub enum ScalarAffinity {
    Number(NumberBits),
    String,
    Boolean,
    Empty,
    SocketAddr,
    IpAddr,
    Opaque,
    Other,
}

/// Which flavour of struct a struct type is; only plain field structs have a
/// schema mapping.
#[derive(Clone, Copy, Debug, PartialEq, Eq, Structural)]
pub enum StructKind {
    Struct,
    TupleStruct,
    Tuple,
}

/// One named field of a struct, with the shape of the field's own type.
#[derive(Debug)]
pub struct StructField {
    pub name: String,
    pub shape: Box<Shape>,
}

/// The structural classification of a type.
#[derive(Debug)]
pub enum Def {
    Scalar(ScalarAffinity),
    Struct(StructKind, Vec<StructField>),
    ListOf(Box<Shape>),
    MapOf(Box<Shape>),
    OptionOf(Box<Shape>),
    Enum,
}

/// A type description: its canonical display name and its structure.
#[derive(Debug)]
pub struct Shape {
    pub name: String,
    pub def: Def,
}

/// A shape counts as a struct whatever its struct kind; this is the test that
/// decides whether a field is promoted to a named definition.
pub open spec fn is_struct_shape(s: Shape) -> bool {
    s.def is Struct
}

/// Option-typed fields are the ones left out of their parent's required list.
pub open spec fn is_option_shape(s: Shape) -> bool {
    s.def is OptionOf
}

impl Shape {
    /// Whether this shape describes a struct type (of any struct kind).
    pub fn is_struct(&self) -> (r: bool)
        ensures
            r == is_struct_shape(*self),
    {
        match &self.def {
            Def::Struct(_, _) => true,
            _ => false,
        }
    }

    /// Whether this shape is an option wrapper.
    pub fn is_option(&self) -> (r: bool)
        ensures
            r == is_option_shape(*self),
    {
        match &self.def {
            Def::OptionOf(_) => true,
            _ => false,
        }
    }
}

/// The canonical display name of the type a shape describes, used both as the
/// schema title and as the key of a shared definition.
pub fn get_type_name(shape: &Shape) -> (r: String)
    ensures
        r@ == shape.name@,
{
    shape.name.clone()
}

} // verus!
