//! The laws the analyzer obeys, stated and proved over the spec functions
//! that the executable functions are verified against.

use vstd::prelude::*;
use crate::analyze::{
    all_types, is_object_type_node, ref_prefix, spec_analyze, spec_analyze_fields, spec_leaf_node,
    spec_widened, tt_contains, widen_filter,
};
use crate::defs::{defs_contains, defs_extend, defs_get, defs_insert, defs_unique,
    lemma_defs_extend_unique, lemma_defs_get_extend, lemma_defs_get_insert};
use crate::node::{type_rank, PropertyView, Type, TypeOrTypesView};
use crate::shape::{is_option_shape, is_struct_shape, Def, Shape, StructField};

verus! {

/// Determinism: the analysis is a function of the shape alone, so two
/// analyses of equal shapes are equal — and with them the documents built
/// from them.
pub proof fn lemma_analysis_deterministic(s1: Shape, s2: Shape)
    requires
        s1 == s2,
    ensures
        spec_analyze(s1) == spec_analyze(s2),
{
}

/// The names of the fields whose shape is not an option wrapper, in field
/// declaration order.
pub open spec fn spec_required_names(fields: Seq<StructField>) -> Seq<Seq<char>>
    decreases fields,
{
    if fields.len() == 0 {
        Seq::empty()
    } else {
        let head: Seq<Seq<char>> = if is_option_shape(*fields[0].shape) {
            Seq::empty()
        } else {
            seq![fields[0].name@]
        };
        head + spec_required_names(fields.drop_first())
    }
}

/// Required-field exclusion: a successfully analyzed field list requires
/// exactly the names of its non-option fields, in declaration order.
pub proof fn lemma_required_excludes_options(fields: Seq<StructField>)
    requires
        spec_analyze_fields(fields) is Ok,
    ensures
        spec_analyze_fields(fields)->Ok_0.required == spec_required_names(fields),
    decreases fields.len(),
{
    if fields.len() > 0 {
        lemma_required_excludes_options(fields.drop_first());
    }
}

/// A tag list in strictly increasing canonical order; such a list holds no
/// tag twice.
pub open spec fn rank_sorted(s: Seq<Type>) -> bool {
    forall|i: int, j: int| 0 <= i < j < s.len() ==> type_rank(s[i]) < type_rank(s[j])
}

/// Which tags the filtered list holds: those of `candidates` that were
/// already present or are `null`.
pub proof fn lemma_widen_filter_membership(candidates: Seq<Type>, tt: TypeOrTypesView)
    ensures
        forall|t: Type|
            #[trigger] widen_filter(candidates, tt).contains(t) <==> (candidates.contains(t) && (
            tt_contains(tt, t) || t is Null)),
    decreases candidates.len(),
{
    if candidates.len() > 0 {
        lemma_widen_filter_membership(candidates.drop_first(), tt);
        let c0 = candidates[0];
        let rest = widen_filter(candidates.drop_first(), tt);
        let w = widen_filter(candidates, tt);
        assert forall|t: Type| #[trigger] w.contains(t) <==> (candidates.contains(t) && (
        tt_contains(tt, t) || t is Null)) by {
            if w.contains(t) {
                let i = choose|i: int| 0 <= i < w.len() && w[i] == t;
                if tt_contains(tt, c0) || c0 is Null {
                    if i == 0 {
                        assert(candidates.contains(t)) by {
                            assert(candidates[0] == t);
                        }
                    } else {
                        assert(rest[i - 1] == t);
                        assert(rest.contains(t));
                        let k = choose|k: int|
                            0 <= k < candidates.drop_first().len() && candidates.drop_first()[k]
                                == t;
                        assert(candidates[k + 1] == t);
                        assert(candidates.contains(t));
                    }
                } else {
                    assert(rest[i] == t);
                    assert(rest.contains(t));
                    let k = choose|k: int|
                        0 <= k < candidates.drop_first().len() && candidates.drop_first()[k] == t;
                    assert(candidates[k + 1] == t);
                    assert(candidates.contains(t));
                }
            }
            if candidates.contains(t) && (tt_contains(tt, t) || t is Null) {
                let i = choose|i: int| 0 <= i < candidates.len() && candidates[i] == t;
                if i == 0 {
                    assert(w[0] == t);
                    assert(w.contains(t));
                } else {
                    assert(candidates.drop_first()[i - 1] == t);
                    assert(candidates.drop_first().contains(t));
                    assert(rest.contains(t));
                    let k = choose|k: int| 0 <= k < rest.len() && rest[k] == t;
                    if tt_contains(tt, c0) || c0 is Null {
                        assert(w[k + 1] == t);
                    } else {
                        assert(w[k] == t);
                    }
                    assert(w.contains(t));
                }
            }
        }
    }
}

/// The filtered list of a canonically ordered candidate list is itself in
/// canonical order.
pub proof fn lemma_widen_filter_sorted(candidates: Seq<Type>, tt: TypeOrTypesView)
    requires
        rank_sorted(candidates),
    ensures
        rank_sorted(widen_filter(candidates, tt)),
    decreases candidates.len(),
{
    if candidates.len() > 0 {
        assert forall|i: int, j: int|
            0 <= i < j < candidates.drop_first().len() implies type_rank(
            candidates.drop_first()[i],
        ) < type_rank(candidates.drop_first()[j]) by {
            assert(candidates.drop_first()[i] == candidates[i + 1]);
            assert(candidates.drop_first()[j] == candidates[j + 1]);
        }
        lemma_widen_filter_sorted(candidates.drop_first(), tt);
        lemma_widen_filter_membership(candidates.drop_first(), tt);
        let c0 = candidates[0];
        let rest = widen_filter(candidates.drop_first(), tt);
        let w = widen_filter(candidates, tt);
        if tt_contains(tt, c0) || c0 is Null {
            assert forall|i: int, j: int| 0 <= i < j < w.len() implies type_rank(w[i]) < type_rank(
                w[j],
            ) by {
                if i == 0 {
                    assert(rest[j - 1] == w[j]);
                    assert(rest.contains(rest[j - 1]));
                    assert(candidates.drop_first().contains(w[j]));
                    let k = choose|k: int|
                        0 <= k < candidates.drop_first().len() && candidates.drop_first()[k] == w[j];
                    assert(candidates[k + 1] == w[j]);
                    assert(type_rank(candidates[0]) < type_rank(candidates[k + 1]));
                } else {
                    assert(w[i] == rest[i - 1]);
                    assert(w[j] == rest[j - 1]);
                }
            }
        }
    }
}

/// Nullable widening, in full: the widened `type` list holds exactly the
/// tags already present plus `null` — each of them once, in canonical order.
pub proof fn lemma_widened_canonical(tt: TypeOrTypesView)
    ensures
        forall|t: Type|
            #[trigger] spec_widened(tt).contains(t) <==> (tt_contains(tt, t) || t is Null),
        rank_sorted(spec_widened(tt)),
        forall|i: int, j: int|
            0 <= i < j < spec_widened(tt).len() ==> spec_widened(tt)[i] != spec_widened(tt)[j],
{
    lemma_widen_filter_membership(all_types(), tt);
    assert forall|t: Type| all_types().contains(t) by {
        match t {
            Type::Object => assert(all_types()[0] == t),
            Type::Boolean => assert(all_types()[1] == t),
            Type::Integer => assert(all_types()[2] == t),
            Type::Number => assert(all_types()[3] == t),
            Type::Array => assert(all_types()[4] == t),
            Type::String => assert(all_types()[5] == t),
            Type::Null => assert(all_types()[6] == t),
        }
    }
    assert(rank_sorted(all_types()));
    lemma_widen_filter_sorted(all_types(), tt);
}

/// The widened `type` list of a single non-object tag `t`: exactly `t`
/// followed by `null` — in canonical order, with no duplicate — and `null`
/// alone when `t` is already `null`.
pub proof fn lemma_widened_single(t: Type)
    ensures
        t is Null ==> spec_widened(TypeOrTypesView::One(t)) == seq![Type::Null],
        !(t is Null) ==> spec_widened(TypeOrTypesView::One(t)) == seq![t, Type::Null],
{
    reveal_with_fuel(widen_filter, 8);
    match t {
        Type::Object => {
            assert(spec_widened(TypeOrTypesView::One(t)) =~= seq![Type::Object, Type::Null]);
        },
        Type::Boolean => {
            assert(spec_widened(TypeOrTypesView::One(t)) =~= seq![Type::Boolean, Type::Null]);
        },
        Type::Integer => {
            assert(spec_widened(TypeOrTypesView::One(t)) =~= seq![Type::Integer, Type::Null]);
        },
        Type::Number => {
            assert(spec_widened(TypeOrTypesView::One(t)) =~= seq![Type::Number, Type::Null]);
        },
        Type::Array => {
            assert(spec_widened(TypeOrTypesView::One(t)) =~= seq![Type::Array, Type::Null]);
        },
        Type::String => {
            assert(spec_widened(TypeOrTypesView::One(t)) =~= seq![Type::String, Type::Null]);
        },
        Type::Null => {
            assert(spec_widened(TypeOrTypesView::One(t)) =~= seq![Type::Null]);
        },
    }
}

/// Option-over-scalar widening: when the inner shape of an option analyzes
/// to a `type` node that is not the single tag `object`, the option keeps
/// that node — format and all — and only widens its tag set with `null`.
pub proof fn lemma_option_scalar_widening(shape: Shape, inner: Box<Shape>)
    requires
        shape.def == Def::OptionOf(inner),
        spec_analyze(*inner) is Ok,
        spec_analyze(*inner)->Ok_0.node matches PropertyView::Type { type_, .. }
            && type_ != TypeOrTypesView::One(Type::Object),
    ensures
        spec_analyze(shape) is Ok,
        ({
            let a = spec_analyze(*inner)->Ok_0;
            let r = spec_analyze(shape)->Ok_0;
            match a.node {
                PropertyView::Type { type_, format, required, properties, minimum, maximum } => r.node
                    == (PropertyView::Type {
                    type_: TypeOrTypesView::Many(spec_widened(type_)),
                    format,
                    required,
                    properties,
                    minimum,
                    maximum,
                }),
                _ => false,
            }
        }),
        spec_analyze(shape)->Ok_0.defs == spec_analyze(*inner)->Ok_0.defs,
        spec_analyze(shape)->Ok_0.name == shape.name@,
{
}

/// Option-over-struct promotion: when the inner shape of an option analyzes
/// to an object-typed node, the option's node becomes a union of a reference
/// to the inner type's definition and `null`; the inner node is registered
/// under the inner type's canonical name, and — when the inner analysis did
/// not itself bind that name — the name answers with exactly the inner node.
pub proof fn lemma_option_struct_promotion(shape: Shape, inner: Box<Shape>)
    requires
        shape.def == Def::OptionOf(inner),
        spec_analyze(*inner) is Ok,
        is_object_type_node(spec_analyze(*inner)->Ok_0.node),
    ensures
        spec_analyze(shape) is Ok,
        ({
            let a = spec_analyze(*inner)->Ok_0;
            let r = spec_analyze(shape)->Ok_0;
            &&& r.node == (PropertyView::AnyOf {
                any_of: seq![
                    (PropertyView::Ref { target: ref_prefix() + a.name }),
                    spec_leaf_node(Type::Null, None),
                ],
            })
            &&& defs_contains(r.defs, a.name)
            &&& (!defs_contains(a.defs, a.name) ==> defs_get(r.defs, a.name) == Some(a.node))
            &&& r.name == shape.name@
        }),
{
    let a = spec_analyze(*inner)->Ok_0;
    lemma_defs_get_insert(Seq::empty(), a.name, a.node, a.name);
    lemma_defs_get_extend(defs_insert(Seq::empty(), a.name, a.node), a.defs, a.name);
}

/// Every definitions pool the analyzer hands up binds each name at most
/// once: a registered composite type appears exactly once under its name.
pub proof fn lemma_definitions_unique(shape: Shape)
    requires
        spec_analyze(shape) is Ok,
    ensures
        defs_unique(spec_analyze(shape)->Ok_0.defs),
    decreases shape, 1int,
{
    match shape.def {
        Def::Struct(kind, fields) => {
            if kind is Struct {
                lemma_fields_definitions_unique(fields@);
            }
        },
        Def::OptionOf(inner) => {
            lemma_definitions_unique(*inner);
            let a = spec_analyze(*inner)->Ok_0;
            if is_object_type_node(a.node) {
                lemma_defs_extend_unique(defs_insert(Seq::empty(), a.name, a.node), a.defs);
            }
        },
        _ => {},
    }
}

/// The field-list side of `lemma_definitions_unique`.
pub proof fn lemma_fields_definitions_unique(fields: Seq<StructField>)
    requires
        spec_analyze_fields(fields) is Ok,
    ensures
        defs_unique(spec_analyze_fields(fields)->Ok_0.defs),
    decreases fields, 0int,
{
    if fields.len() > 0 {
        lemma_definitions_unique(*fields[0].shape);
        lemma_fields_definitions_unique(fields.drop_first());
        let a = spec_analyze(*fields[0].shape)->Ok_0;
        let rest = spec_analyze_fields(fields.drop_first())->Ok_0;
        if is_struct_shape(*fields[0].shape) {
            lemma_defs_extend_unique(defs_insert(Seq::empty(), a.name, a.node), a.defs);
            lemma_defs_extend_unique(
                defs_extend(defs_insert(Seq::empty(), a.name, a.node), a.defs),
                rest.defs,
            );
        } else {
            lemma_defs_extend_unique(a.defs, rest.defs);
        }
    }
}

/// Nested-struct referencing: in a successfully analyzed field list, every
/// field keeps its name and place under `properties`; every struct-shaped
/// field stands there as a reference `#/definitions/<name>` to the field
/// type's canonical name, and that name is bound in the collected
/// definitions.
pub proof fn lemma_struct_fields_referenced(fields: Seq<StructField>)
    requires
        spec_analyze_fields(fields) is Ok,
    ensures
        spec_analyze_fields(fields)->Ok_0.properties.len() == fields.len(),
        forall|i: int|
            0 <= i < fields.len() ==> #[trigger] spec_analyze_fields(fields)->Ok_0.properties[i].0
                == fields[i].name@,
        forall|i: int|
            0 <= i < fields.len() && is_struct_shape(*fields[i].shape) ==> {
                let fa = spec_analyze_fields(fields)->Ok_0;
                let ai = spec_analyze(*#[trigger] fields[i].shape)->Ok_0;
                &&& spec_analyze(*fields[i].shape) is Ok
                &&& fa.properties[i].1 == (PropertyView::Ref { target: ref_prefix() + ai.name })
                &&& defs_contains(fa.defs, ai.name)
            },
    decreases fields.len(),
{
    if fields.len() > 0 {
        lemma_struct_fields_referenced(fields.drop_first());
        let a = spec_analyze(*fields[0].shape)->Ok_0;
        let rest = spec_analyze_fields(fields.drop_first())->Ok_0;
        let fa = spec_analyze_fields(fields)->Ok_0;
        let head_defs = if is_struct_shape(*fields[0].shape) {
            defs_extend(defs_insert(Seq::empty(), a.name, a.node), a.defs)
        } else {
            a.defs
        };
        if is_struct_shape(*fields[0].shape) {
            lemma_defs_get_insert(Seq::empty(), a.name, a.node, a.name);
            lemma_defs_get_extend(defs_insert(Seq::empty(), a.name, a.node), a.defs, a.name);
            lemma_defs_get_extend(head_defs, rest.defs, a.name);
        }
        assert(fa.defs == defs_extend(head_defs, rest.defs));
        assert forall|i: int|
            0 <= i < fields.len() && is_struct_shape(*fields[i].shape) implies {
            let ai = spec_analyze(*fields[i].shape)->Ok_0;
            &&& spec_analyze(*fields[i].shape) is Ok
            &&& fa.properties[i].1 == (PropertyView::Ref { target: ref_prefix() + ai.name })
            &&& defs_contains(fa.defs, ai.name)
        } by {
            if i == 0 {
                lemma_defs_get_extend(head_defs, rest.defs, a.name);
            } else {
                assert(fields.drop_first()[i - 1] == fields[i]);
                let ai = spec_analyze(*fields[i].shape)->Ok_0;
                assert(defs_contains(rest.defs, ai.name));
                lemma_defs_get_extend(head_defs, rest.defs, ai.name);
            }
        }
    }
}

} // verus!
