//! The output side of the analyzer: the schema node tree, the primitive
//! format tags, and the typed error for unsupported inputs, together with
//! their mathematical views (`Seq`-based mirrors used by every contract).

use vstd::prelude::*;

verus! {

/// A JSON Schema primitive type tag. The declaration order is the canonical
/// order in which the tags of a widened type set are sorted.
#[derive(Clone, Copy, Debug, PartialEq, Eq, PartialOrd, Ord, Structural)]
pub enum Type {
    Object,
    Boolean,
    Integer,
    Number,
    Array,
    String,
    Null,
}

/// The position of a type tag in the canonical order.
pub open spec fn type_rank(t: Type) -> int {
    match t {
        Type::Object => 0,
        Type::Boolean => 1,
        Type::Integer => 2,
        Type::Number => 3,
        Type::Array => 4,
        Type::String => 5,
        Type::Null => 6,
    }
}

/// The format tag attached to a numeric schema node, derived from the
/// scalar's bit width and signedness (or float layout).
#[derive(Clone, Copy, Debug, PartialEq, Eq, Structural)]
pub enum TypeFormat {
    Int,
    Int8,
    Int16,
    Int32,
    Int64,
    Int128,
    Uint,
    Uint8,
    Uint16,
    Uint32,
    Uint64,
    Uint128,
    Float,
    Double,
}

/// The `type` field of a schema node: a single tag, or a sorted,
/// deduplicated list of tags after nullable widening.
#[derive(Debug, PartialEq, Eq)]
pub enum TypeOrTypes {
    Type(Type),
    Types(Vec<Type>),
}

/// One node of the output schema tree: a typed node (leaf or object), a
/// reference to a shared named definition, or a union of alternatives.
#[derive(Debug, PartialEq, Eq)]
pub enum Property {
    Type {
        type_: TypeOrTypes,
        format: Option<TypeFormat>,
        required: Vec<String>,
        properties: Option<Vec<(String, Property)>>,
        minimum: Option<i128>,
        maximum: Option<i128>,
    },
    Ref {
        target: String,
    },
    AnyOf {
        any_of: Vec<Property>,
    },
}

/// The error returned for an input type with no schema mapping; each variant
/// carries the canonical name of the offending type.
#[derive(Debug, PartialEq, Eq)]
pub enum SchemaError {
    /// A fixed-point number, or a float layout other than IEEE single/double.
    UnsupportedNumber { name: String },
    /// A scalar affinity outside number/string/boolean.
    UnsupportedScalar { name: String },
    /// A tuple struct or positional tuple.
    UnsupportedStructKind { name: String },
    /// An enum type; schema derivation is not defined for it.
    UnsupportedEnum { name: String },
}

/// Mathematical mirror of `TypeOrTypes`.
#[verifier::ext_equal]
pub enum TypeOrTypesView {
    One(Type),
    Many(Seq<Type>),
}

/// Mathematical mirror of `Property`.
#[verifier::ext_equal]
pub enum PropertyView {
    Type {
        type_: TypeOrTypesView,
        format: Option<TypeFormat>,
        required: Seq<Seq<char>>,
        properties: Option<Seq<(Seq<char>, PropertyView)>>,
        minimum: Option<int>,
        maximum: Option<int>,
    },
    Ref {
        target: Seq<char>,
    },
    AnyOf {
        any_of: Seq<PropertyView>,
    },
}

/// Mathematical mirror of `SchemaError`.
#[verifier::ext_equal]
pub enum SchemaErrorView {
    UnsupportedNumber { name: Seq<char> },
    UnsupportedScalar { name: Seq<char> },
    UnsupportedStructKind { name: Seq<char> },
    UnsupportedEnum { name: Seq<char> },
}

impl View for TypeOrTypes {
    type V = TypeOrTypesView;

    open spec fn view(&self) -> TypeOrTypesView {
        match self {
            TypeOrTypes::Type(t) => TypeOrTypesView::One(*t),
            TypeOrTypes::Types(ts) => TypeOrTypesView::Many(ts@),
        }
    }
}

impl TypeOrTypes {
    /// The tag list of this `type` field: a single tag becomes a list of one.
    pub fn into_tags(self) -> (r: Vec<Type>)
        ensures
            r@ == (match self@ {
                TypeOrTypesView::One(t) => seq![t],
                TypeOrTypesView::Many(s) => s,
            }),
    {
        match self {
            TypeOrTypes::Type(t) => {
                let mut v: Vec<Type> = Vec::new();
                v.push(t);
                proof {
                    assert(v@ =~= seq![t]);
                }
                v
            },
            TypeOrTypes::Types(items) => items,
        }
    }
}

/// The view of a schema node, taken field by field and element by element.
pub open spec fn prop_view(p: Property) -> PropertyView
    decreases p, 1int,
{
    match p {
        Property::Type { type_, format, required, properties, minimum, maximum } => PropertyView::Type {
            type_: type_@,
            format: format,
            required: required.deep_view(),
            properties: match properties {
                Option::Some(props) => Option::Some(pairs_view(props@)),
                Option::None => Option::None,
            },
            minimum: match minimum {
                Option::Some(m) => Option::Some(m as int),
                Option::None => Option::None,
            },
            maximum: match maximum {
                Option::Some(m) => Option::Some(m as int),
                Option::None => Option::None,
            },
        },
        Property::Ref { target } => PropertyView::Ref { target: target@ },
        Property::AnyOf { any_of } => PropertyView::AnyOf { any_of: list_view(any_of@) },
    }
}

/// The view of an ordered name-to-node association list.
pub open spec fn pairs_view(l: Seq<(String, Property)>) -> Seq<(Seq<char>, PropertyView)>
    decreases l, 0int,
{
    if l.len() == 0 {
        Seq::empty()
    } else {
        seq![(l[0].0@, prop_view(l[0].1))] + pairs_view(l.drop_first())
    }
}

/// The view of a list of schema nodes.
pub open spec fn list_view(l: Seq<Property>) -> Seq<PropertyView>
    decreases l, 0int,
{
    if l.len() == 0 {
        Seq::empty()
    } else {
        seq![prop_view(l[0])] + list_view(l.drop_first())
    }
}

impl View for SchemaError {
    type V = SchemaErrorView;

    open spec fn view(&self) -> SchemaErrorView {
        match self {
            SchemaError::UnsupportedNumber { name } => SchemaErrorView::UnsupportedNumber {
                name: name@,
            },
            SchemaError::UnsupportedScalar { name } => SchemaErrorView::UnsupportedScalar {
                name: name@,
            },
            SchemaError::UnsupportedStructKind { name } => SchemaErrorView::UnsupportedStructKind {
                name: name@,
            },
            SchemaError::UnsupportedEnum { name } => SchemaErrorView::UnsupportedEnum {
                name: name@,
            },
        }
    }
}

} // verus!
