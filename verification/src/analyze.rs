//! The shape analyzer: walks a type description and produces a schema node
//! for it, together with the pool of named definitions contributed by nested
//! composite types and the type's canonical name.
//!
//! `spec_analyze` is the mathematical statement of the whole transformation;
//! `analyze_shape` is the executable analyzer, proved to return exactly what
//! `spec_analyze` says for every input.

use vstd::prelude::*;
use vstd::string::StringExecFns;
use crate::defs::{defs_extend, defs_insert, lemma_pairs_view, Definitions};
use crate::node::{
    list_view, pairs_view, prop_view, Property, PropertyView, SchemaError, SchemaErrorView, Type,
    TypeFormat, TypeOrTypes, TypeOrTypesView,
};
use crate::shape::{
    get_type_name, is_option_shape, is_struct_shape, Def, NumberBits, ScalarAffinity, Shape,
    Signedness, StructField, StructKind,
};

verus! {

/// The fixed prefix of a reference to a shared named definition.
pub open spec fn ref_prefix() -> Seq<char> {
    "#/definitions/"@
}

/// The format tag of an integer scalar: a named tag for the widths 8, 16, 32,
/// 64 and 128 bits, and the family's generic tag for any other width.
pub open spec fn spec_integer_format(bits: u32, sign: Signedness) -> TypeFormat {
    match sign {
        Signedness::Signed => if bits == 8 {
            TypeFormat::Int8
        } else if bits == 16 {
            TypeFormat::Int16
        } else if bits == 32 {
            TypeFormat::Int32
        } else if bits == 64 {
            TypeFormat::Int64
        } else if bits == 128 {
            TypeFormat::Int128
        } else {
            TypeFormat::Int
        },
        Signedness::Unsigned => if bits == 8 {
            TypeFormat::Uint8
        } else if bits == 16 {
            TypeFormat::Uint16
        } else if bits == 32 {
            TypeFormat::Uint32
        } else if bits == 64 {
            TypeFormat::Uint64
        } else if bits == 128 {
            TypeFormat::Uint128
        } else {
            TypeFormat::Uint
        },
    }
}

/// A leaf schema node: one type tag, an optional format, and nothing else.
pub open spec fn spec_leaf_node(t: Type, format: Option<TypeFormat>) -> PropertyView {
    PropertyView::Type {
        type_: TypeOrTypesView::One(t),
        format: format,
        required: Seq::empty(),
        properties: None,
        minimum: None,
        maximum: None,
    }
}

/// The schema node of a scalar shape, or the error a scalar with no schema
/// mapping raises; `name` is the scalar type's canonical name.
pub open spec fn spec_scalar_node(aff: ScalarAffinity, name: Seq<char>) -> Result<
    PropertyView,
    SchemaErrorView,
> {
    match aff {
        ScalarAffinity::Number(nb) => match nb {
            NumberBits::Integer { bits, sign } => Ok(
                spec_leaf_node(Type::Integer, Some(spec_integer_format(bits, sign))),
            ),
            NumberBits::Float { sign_bits, exponent_bits, mantissa_bits } => if sign_bits == 1
                && exponent_bits == 8 && mantissa_bits == 23 {
                Ok(spec_leaf_node(Type::Number, Some(TypeFormat::Float)))
            } else if sign_bits == 1 && exponent_bits == 11 && mantissa_bits == 52 {
                Ok(spec_leaf_node(Type::Number, Some(TypeFormat::Double)))
            } else {
                Err(SchemaErrorView::UnsupportedNumber { name })
            },
            NumberBits::Fixed { .. } => Err(SchemaErrorView::UnsupportedNumber { name }),
        },
        ScalarAffinity::String => Ok(spec_leaf_node(Type::String, None)),
        ScalarAffinity::Boolean => Ok(spec_leaf_node(Type::Boolean, None)),
        _ => Err(SchemaErrorView::UnsupportedScalar { name }),
    }
}

/// The canonical order of the type tags.
pub open spec fn all_types() -> Seq<Type> {
    seq![
        Type::Object,
        Type::Boolean,
        Type::Integer,
        Type::Number,
        Type::Array,
        Type::String,
        Type::Null,
    ]
}

/// Whether a `type` field already holds the tag `t`.
pub open spec fn tt_contains(tt: TypeOrTypesView, t: Type) -> bool {
    match tt {
        TypeOrTypesView::One(x) => x == t,
        TypeOrTypesView::Many(s) => s.contains(t),
    }
}

/// The tags of `candidates`, in order, that belong to the widened set: the
/// tags `tt` already holds, and `null`.
pub open spec fn widen_filter(candidates: Seq<Type>, tt: TypeOrTypesView) -> Seq<Type>
    decreases candidates.len(),
{
    if candidates.len() == 0 {
        Seq::empty()
    } else {
        let rest = widen_filter(candidates.drop_first(), tt);
        if tt_contains(tt, candidates[0]) || candidates[0] is Null {
            seq![candidates[0]] + rest
        } else {
            rest
        }
    }
}

/// The nullable widening of a `type` field: `null` joins the tag set, and the
/// result lists each tag of the set once, in canonical order.
pub open spec fn spec_widened(tt: TypeOrTypesView) -> Seq<Type> {
    widen_filter(all_types(), tt)
}

/// Whether a node is an object-typed `type` node — the case an option
/// wrapper promotes to a named definition.
pub open spec fn is_object_type_node(n: PropertyView) -> bool {
    n matches PropertyView::Type { type_: TypeOrTypesView::One(Type::Object), .. }
}

/// The result of analyzing one shape: its schema node, the definitions
/// collected beneath it, and its canonical name.
#[verifier::ext_equal]
pub struct AnalysisView {
    pub node: PropertyView,
    pub defs: Seq<(Seq<char>, PropertyView)>,
    pub name: Seq<char>,
}

/// The result of analyzing a struct's field list: the required-field names,
/// the per-field properties in declaration order, and the collected
/// definitions.
#[verifier::ext_equal]
pub struct FieldsView {
    pub required: Seq<Seq<char>>,
    pub properties: Seq<(Seq<char>, PropertyView)>,
    pub defs: Seq<(Seq<char>, PropertyView)>,
}

/// The node an option wrapper produces from its inner analysis `a`: an inner
/// object is replaced by a reference-or-null union; any other `type` node has
/// `null` widened into its tag set; a reference or union passes through
/// unchanged.
pub open spec fn spec_option_node(a: AnalysisView) -> PropertyView {
    if is_object_type_node(a.node) {
        PropertyView::AnyOf {
            any_of: seq![
                PropertyView::Ref { target: ref_prefix() + a.name },
                spec_leaf_node(Type::Null, None),
            ],
        }
    } else {
        match a.node {
            PropertyView::Type { type_, format, required, properties, minimum, maximum } => PropertyView::Type {
                type_: TypeOrTypesView::Many(spec_widened(type_)),
                format,
                required,
                properties,
                minimum,
                maximum,
            },
            other => other,
        }
    }
}

/// The definitions an option wrapper hands up: the promoted inner object
/// first, if there is one, then the inner analysis's own pool.
pub open spec fn spec_option_defs(a: AnalysisView) -> Seq<(Seq<char>, PropertyView)> {
    if is_object_type_node(a.node) {
        defs_extend(defs_insert(Seq::empty(), a.name, a.node), a.defs)
    } else {
        a.defs
    }
}

/// What the analyzer returns for `shape`: dispatch over the shape's variant,
/// as laid out variant by variant in the helpers above.
pub open spec fn spec_analyze(shape: Shape) -> Result<AnalysisView, SchemaErrorView>
    decreases shape, 1int,
{
    let name = shape.name@;
    match shape.def {
        Def::Scalar(aff) => match spec_scalar_node(aff, name) {
            Ok(node) => Ok(AnalysisView { node, defs: Seq::empty(), name }),
            Err(e) => Err(e),
        },
        Def::Struct(kind, fields) => match kind {
            StructKind::Struct => match spec_analyze_fields(fields@) {
                Ok(fa) => Ok(
                    AnalysisView {
                        node: PropertyView::Type {
                            type_: TypeOrTypesView::One(Type::Object),
                            format: None,
                            required: fa.required,
                            properties: Some(fa.properties),
                            minimum: None,
                            maximum: None,
                        },
                        defs: fa.defs,
                        name,
                    },
                ),
                Err(e) => Err(e),
            },
            _ => Err(SchemaErrorView::UnsupportedStructKind { name }),
        },
        Def::ListOf(_) => Ok(
            AnalysisView { node: spec_leaf_node(Type::Array, None), defs: Seq::empty(), name },
        ),
        Def::MapOf(_) => Ok(
            AnalysisView { node: spec_leaf_node(Type::Object, None), defs: Seq::empty(), name },
        ),
        Def::OptionOf(inner) => match spec_analyze(*inner) {
            Ok(a) => Ok(
                AnalysisView { node: spec_option_node(a), defs: spec_option_defs(a), name },
            ),
            Err(e) => Err(e),
        },
        Def::Enum => Err(SchemaErrorView::UnsupportedEnum { name }),
    }
}

/// What the analyzer returns for a struct's field list, front to back: a
/// non-option field's name joins `required`; a struct-shaped field is
/// registered as a named definition and referenced, any other field's node is
/// inlined; each field's own definitions are merged in, later writers
/// winning.
pub open spec fn spec_analyze_fields(fields: Seq<StructField>) -> Result<
    FieldsView,
    SchemaErrorView,
>
    decreases fields, 0int,
{
    if fields.len() == 0 {
        Ok(FieldsView { required: Seq::empty(), properties: Seq::empty(), defs: Seq::empty() })
    } else {
        let field = fields[0];
        match spec_analyze(*field.shape) {
            Err(e) => Err(e),
            Ok(a) => match spec_analyze_fields(fields.drop_first()) {
                Err(e) => Err(e),
                Ok(rest) => {
                    let req0: Seq<Seq<char>> = if is_option_shape(*field.shape) {
                        Seq::empty()
                    } else {
                        seq![field.name@]
                    };
                    if is_struct_shape(*field.shape) {
                        Ok(
                            FieldsView {
                                required: req0 + rest.required,
                                properties: seq![
                                    (
                                        field.name@,
                                        PropertyView::Ref { target: ref_prefix() + a.name },
                                    ),
                                ] + rest.properties,
                                defs: defs_extend(
                                    defs_extend(defs_insert(Seq::empty(), a.name, a.node), a.defs),
                                    rest.defs,
                                ),
                            },
                        )
                    } else {
                        Ok(
                            FieldsView {
                                required: req0 + rest.required,
                                properties: seq![(field.name@, a.node)] + rest.properties,
                                defs: defs_extend(a.defs, rest.defs),
                            },
                        )
                    }
                },
            },
        }
    }
}

/// The view of an analyzer result: both sides taken to their mirrors.
pub open spec fn analysis_view(r: Result<(Property, Definitions, String), SchemaError>) -> Result<
    AnalysisView,
    SchemaErrorView,
> {
    match r {
        Ok((p, d, n)) => Ok(AnalysisView { node: prop_view(p), defs: d@, name: n@ }),
        Err(e) => Err(e@),
    }
}

/// The view of a field-list analyzer result.
pub open spec fn fields_view_of(
    r: Result<(Vec<String>, Vec<(String, Property)>, Definitions), SchemaError>,
) -> Result<FieldsView, SchemaErrorView> {
    match r {
        Ok((req, props, d)) => Ok(
            FieldsView { required: req.deep_view(), properties: pairs_view(props@), defs: d@ },
        ),
        Err(e) => Err(e@),
    }
}

/// The view of a single-node result.
pub open spec fn node_result_view(r: Result<Property, SchemaError>) -> Result<
    PropertyView,
    SchemaErrorView,
> {
    match r {
        Ok(p) => Ok(prop_view(p)),
        Err(e) => Err(e@),
    }
}

/// Executable twin of `spec_integer_format`.
fn integer_format(bits: u32, sign: Signedness) -> (r: TypeFormat)
    ensures
        r == spec_integer_format(bits, sign),
{
    match sign {
        Signedness::Signed => {
            if bits == 8 {
                TypeFormat::Int8
            } else if bits == 16 {
                TypeFormat::Int16
            } else if bits == 32 {
                TypeFormat::Int32
            } else if bits == 64 {
                TypeFormat::Int64
            } else if bits == 128 {
                TypeFormat::Int128
            } else {
                TypeFormat::Int
            }
        },
        Signedness::Unsigned => {
            if bits == 8 {
                TypeFormat::Uint8
            } else if bits == 16 {
                TypeFormat::Uint16
            } else if bits == 32 {
                TypeFormat::Uint32
            } else if bits == 64 {
                TypeFormat::Uint64
            } else if bits == 128 {
                TypeFormat::Uint128
            } else {
                TypeFormat::Uint
            }
        },
    }
}

/// Builds a leaf schema node.
fn leaf_node(t: Type, format: Option<TypeFormat>) -> (r: Property)
    ensures
        prop_view(r) == spec_leaf_node(t, format),
{
    let required: Vec<String> = Vec::new();
    let r = Property::Type {
        type_: TypeOrTypes::Type(t),
        format,
        required,
        properties: None,
        minimum: None,
        maximum: None,
    };
    proof {
        assert(prop_view(r) =~= spec_leaf_node(t, format));
    }
    r
}

/// Whether the `type` field already holds the tag `t`.
fn tt_has(tt: &TypeOrTypes, t: Type) -> (r: bool)
    ensures
        r == tt_contains(tt@, t),
{
    match tt {
        TypeOrTypes::Type(x) => *x == t,
        TypeOrTypes::Types(v) => {
            let mut i: usize = 0;
            while i < v.len()
                invariant
                    i <= v@.len(),
                    tt@ == TypeOrTypesView::Many(v@),
                    forall|j: int| 0 <= j < i ==> v@[j] != t,
                decreases v@.len() - i,
            {
                if v[i] == t {
                    proof {
                        assert(v@[i as int] == t);
                        assert(v@.contains(t));
                    }
                    return true;
                }
                i += 1;
            }
            false
        },
    }
}

/// The widened tag list of an option over a non-object `type` node.
fn widened_types(tt: &TypeOrTypes) -> (r: Vec<Type>)
    ensures
        r@ == spec_widened(tt@),
{
    let mut out: Vec<Type> = Vec::new();
    if tt_has(tt, Type::Object) {
        out.push(Type::Object);
    }
    if tt_has(tt, Type::Boolean) {
        out.push(Type::Boolean);
    }
    if tt_has(tt, Type::Integer) {
        out.push(Type::Integer);
    }
    if tt_has(tt, Type::Number) {
        out.push(Type::Number);
    }
    if tt_has(tt, Type::Array) {
        out.push(Type::Array);
    }
    if tt_has(tt, Type::String) {
        out.push(Type::String);
    }
    out.push(Type::Null);
    proof {
        reveal_with_fuel(widen_filter, 8);
        assert(out@ =~= spec_widened(tt@));
    }
    out
}

/// Whether the `type` field is exactly the single tag `object`.
fn is_single_object(tt: &TypeOrTypes) -> (r: bool)
    ensures
        r == (tt@ == TypeOrTypesView::One(Type::Object)),
{
    match tt {
        TypeOrTypes::Type(Type::Object) => true,
        _ => false,
    }
}

/// The `$ref` string pointing at the named definition `name`.
fn ref_string(name: &String) -> (r: String)
    ensures
        r@ == ref_prefix() + name@,
{
    let mut s = String::from_str("#/definitions/");
    s.append(name.as_str());
    s
}

/// The schema node of a scalar shape, or the unsupported-input error.
fn scalar_node(aff: &ScalarAffinity, name: &String) -> (r: Result<Property, SchemaError>)
    ensures
        node_result_view(r) == spec_scalar_node(*aff, name@),
{
    match aff {
        ScalarAffinity::Number(nb) => match nb {
            NumberBits::Integer { bits, sign } => Ok(
                leaf_node(Type::Integer, Some(integer_format(*bits, *sign))),
            ),
            NumberBits::Float { sign_bits, exponent_bits, mantissa_bits } => {
                if *sign_bits == 1 && *exponent_bits == 8 && *mantissa_bits == 23 {
                    Ok(leaf_node(Type::Number, Some(TypeFormat::Float)))
                } else if *sign_bits == 1 && *exponent_bits == 11 && *mantissa_bits == 52 {
                    Ok(leaf_node(Type::Number, Some(TypeFormat::Double)))
                } else {
                    Err(SchemaError::UnsupportedNumber { name: name.clone() })
                }
            },
            NumberBits::Fixed { .. } => Err(SchemaError::UnsupportedNumber { name: name.clone() }),
        },
        ScalarAffinity::String => Ok(leaf_node(Type::String, None)),
        ScalarAffinity::Boolean => Ok(leaf_node(Type::Boolean, None)),
        ScalarAffinity::Empty => Err(SchemaError::UnsupportedScalar { name: name.clone() }),
        ScalarAffinity::SocketAddr => Err(SchemaError::UnsupportedScalar { name: name.clone() }),
        ScalarAffinity::IpAddr => Err(SchemaError::UnsupportedScalar { name: name.clone() }),
        ScalarAffinity::Opaque => Err(SchemaError::UnsupportedScalar { name: name.clone() }),
        ScalarAffinity::Other => Err(SchemaError::UnsupportedScalar { name: name.clone() }),
    }
}

/// Analyzes the fields of a plain struct from position `i` on.
fn analyze_fields(fields: &Vec<StructField>, i: usize) -> (r: Result<
    (Vec<String>, Vec<(String, Property)>, Definitions),
    SchemaError,
>)
    requires
        i <= fields@.len(),
    ensures
        fields_view_of(r) == spec_analyze_fields(fields@.skip(i as int)),
    decreases fields@, fields@.len() - i as int, 0int,
{
    let ghost sub = fields@.skip(i as int);
    if i == fields.len() {
        let req: Vec<String> = Vec::new();
        let props: Vec<(String, Property)> = Vec::new();
        let d = Definitions::new();
        proof {
            assert(sub =~= Seq::<StructField>::empty());
            assert(req.deep_view() =~= Seq::<Seq<char>>::empty());
            assert(pairs_view(props@) =~= Seq::<(Seq<char>, PropertyView)>::empty());
        }
        Ok((req, props, d))
    } else {
        proof {
            assert(sub[0] == fields@[i as int]);
            assert(sub.drop_first() =~= fields@.skip(i as int + 1));
        }
        let field = &fields[i];
        let fshape: &Shape = &*field.shape;
        match analyze_shape(fshape) {
            Err(e) => Err(e),
            Ok((a_prop, a_defs, a_name)) => {
                let ghost a = AnalysisView {
                    node: prop_view(a_prop),
                    defs: a_defs@,
                    name: a_name@,
                };
                match analyze_fields(fields, i + 1) {
                    Err(e) => Err(e),
                    Ok((mut req_rest, mut props_rest, defs_rest)) => {
                        let ghost rest = FieldsView {
                            required: req_rest.deep_view(),
                            properties: pairs_view(props_rest@),
                            defs: defs_rest@,
                        };
                        let ghost req0: Seq<Seq<char>> = if is_option_shape(*fshape) {
                            Seq::empty()
                        } else {
                            seq![field.name@]
                        };
                        let mut required: Vec<String> = Vec::new();
                        if !fshape.is_option() {
                            required.push(field.name.clone());
                        }
                        required.append(&mut req_rest);
                        proof {
                            assert(required.deep_view() =~= req0 + rest.required);
                        }
                        let ghost props_rest_seq = props_rest@;
                        if fshape.is_struct() {
                            let target = ref_string(&a_name);
                            let mut d = Definitions::new();
                            d.insert(a_name, a_prop);
                            d.extend(a_defs);
                            d.extend(defs_rest);
                            let mut props: Vec<(String, Property)> = Vec::new();
                            props.push((field.name.clone(), Property::Ref { target }));
                            props.append(&mut props_rest);
                            proof {
                                lemma_pairs_view(props@);
                                lemma_pairs_view(props_rest_seq);
                                assert(pairs_view(props@) =~= seq![
                                    (field.name@, PropertyView::Ref { target: ref_prefix() + a.name }),
                                ] + rest.properties);
                            }
                            Ok((required, props, d))
                        } else {
                            let mut d = a_defs;
                            d.extend(defs_rest);
                            let mut props: Vec<(String, Property)> = Vec::new();
                            props.push((field.name.clone(), a_prop));
                            props.append(&mut props_rest);
                            proof {
                                lemma_pairs_view(props@);
                                lemma_pairs_view(props_rest_seq);
                                assert(pairs_view(props@) =~= seq![(field.name@, a.node)]
                                    + rest.properties);
                            }
                            Ok((required, props, d))
                        }
                    },
                }
            },
        }
    }
}

/// Analyzes one shape: returns its schema node, the named definitions that
/// nested composite types contributed, and the shape's canonical name — or
/// the typed error for an input with no schema mapping.
pub fn analyze_shape(shape: &Shape) -> (r: Result<
    (Property, Definitions, String),
    SchemaError,
>)
    ensures
        analysis_view(r) == spec_analyze(*shape),
    decreases *shape, 0int, 1int,
{
    match &shape.def {
        Def::Scalar(aff) => match scalar_node(aff, &shape.name) {
            Ok(node) => {
                let d = Definitions::new();
                Ok((node, d, get_type_name(shape)))
            },
            Err(e) => Err(e),
        },
        Def::Struct(kind, fields) => match kind {
            StructKind::Struct => {
                proof {
                    assert(fields@.skip(0) =~= fields@);
                }
                match analyze_fields(fields, 0) {
                    Ok((required, props, d)) => {
                        let node = Property::Type {
                            type_: TypeOrTypes::Type(Type::Object),
                            format: None,
                            required,
                            properties: Some(props),
                            minimum: None,
                            maximum: None,
                        };
                        Ok((node, d, get_type_name(shape)))
                    },
                    Err(e) => Err(e),
                }
            },
            StructKind::TupleStruct => Err(
                SchemaError::UnsupportedStructKind { name: get_type_name(shape) },
            ),
            StructKind::Tuple => Err(
                SchemaError::UnsupportedStructKind { name: get_type_name(shape) },
            ),
        },
        Def::ListOf(_) => {
            let d = Definitions::new();
            Ok((leaf_node(Type::Array, None), d, get_type_name(shape)))
        },
        Def::MapOf(_) => {
            let d = Definitions::new();
            Ok((leaf_node(Type::Object, None), d, get_type_name(shape)))
        },
        Def::OptionOf(inner) => match analyze_shape(&**inner) {
            Err(e) => Err(e),
            Ok((inner_prop, inner_defs, inner_name)) => {
                let ghost a = AnalysisView {
                    node: prop_view(inner_prop),
                    defs: inner_defs@,
                    name: inner_name@,
                };
                let (node, d) = match inner_prop {
                    Property::Type { type_, format, required, properties, minimum, maximum } => {
                        if is_single_object(&type_) {
                            let obj = Property::Type {
                                type_,
                                format,
                                required,
                                properties,
                                minimum,
                                maximum,
                            };
                            proof {
                                assert(prop_view(obj) == a.node);
                            }
                            let target = ref_string(&inner_name);
                            let mut d = Definitions::new();
                            d.insert(inner_name.clone(), obj);
                            d.extend(inner_defs);
                            let null_leaf = leaf_node(Type::Null, None);
                            let mut alts: Vec<Property> = Vec::new();
                            alts.push(Property::Ref { target });
                            alts.push(null_leaf);
                            proof {
                                reveal_with_fuel(list_view, 3);
                                assert(list_view(alts@) =~= seq![
                                    PropertyView::Ref { target: ref_prefix() + a.name },
                                    spec_leaf_node(Type::Null, None),
                                ]);
                            }
                            (Property::AnyOf { any_of: alts }, d)
                        } else {
                            let w = widened_types(&type_);
                            let node = Property::Type {
                                type_: TypeOrTypes::Types(w),
                                format,
                                required,
                                properties,
                                minimum,
                                maximum,
                            };
                            (node, inner_defs)
                        }
                    },
                    other => (other, inner_defs),
                };
                proof {
                    assert(prop_view(node) =~= spec_option_node(a));
                    assert(d@ == spec_option_defs(a));
                }
                Ok((node, d, get_type_name(shape)))
            },
        },
        Def::Enum => Err(SchemaError::UnsupportedEnum { name: get_type_name(shape) }),
    }
}

} // verus!
