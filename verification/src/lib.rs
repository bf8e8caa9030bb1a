//! Derives a JSON Schema (draft-07) document from a description of a type's
//! structure: object properties, required fields, primitive formats,
//! nullability, and a pool of named sub-schemas for nested composite types.
//!
//! The entry point is [`schema`], which analyzes a [`shape::Shape`] and wraps
//! the result into a [`Schema`] document. Every function is verified against
//! the spec functions of [`analyze`], which state the whole transformation.

pub mod analyze;
pub mod defs;
pub mod laws;
pub mod node;
pub mod shape;

use vstd::prelude::*;
use crate::analyze::{analyze_shape, spec_analyze, AnalysisView};
use crate::defs::Definitions;
use crate::node::{prop_view, Property, PropertyView, SchemaError, SchemaErrorView};
use crate::shape::Shape;

verus! {

/// The schema-version marker carried by every produced document.
pub open spec fn spec_schema_version() -> Seq<char> {
    "http://json-schema.org/draft-07/schema#"@
}

/// A complete schema document: the version marker, the title (the root
/// type's canonical name), the root node, and the shared definitions —
/// omitted from the emitted document when empty.
#[derive(Debug, PartialEq, Eq)]
pub struct Schema {
    pub schema: &'static str,
    pub title: String,
    pub root_property: Property,
    pub definitions: Definitions,
}

/// Mathematical mirror of `Schema`.
#[verifier::ext_equal]
pub struct SchemaView {
    pub schema: Seq<char>,
    pub title: Seq<char>,
    pub root_property: PropertyView,
    pub definitions: Seq<(Seq<char>, PropertyView)>,
}

impl View for Schema {
    type V = SchemaView;

    open spec fn view(&self) -> SchemaView {
        SchemaView {
            schema: self.schema@,
            title: self.title@,
            root_property: prop_view(self.root_property),
            definitions: self.definitions@,
        }
    }
}

/// The document built for `root`: the analyzer's node and definitions, under
/// the fixed version marker and the root type's name as title.
pub open spec fn spec_schema(root: Shape) -> Result<SchemaView, SchemaErrorView> {
    match spec_analyze(root) {
        Ok(a) => Ok(
            SchemaView {
                schema: spec_schema_version(),
                title: a.name,
                root_property: a.node,
                definitions: a.defs,
            },
        ),
        Err(e) => Err(e),
    }
}

/// The view of a schema result: both sides taken to their mirrors.
pub open spec fn schema_result_view(r: Result<Schema, SchemaError>) -> Result<
    SchemaView,
    SchemaErrorView,
> {
    match r {
        Ok(s) => Ok(s@),
        Err(e) => Err(e@),
    }
}

/// Derives the schema document for the type `root` describes, or returns the
/// typed error when some part of the type has no schema mapping.
pub fn schema(root: &Shape) -> (r: Result<Schema, SchemaError>)
    ensures
        schema_result_view(r) == spec_schema(*root),
{
    match analyze_shape(root) {
        Ok((root_property, definitions, title)) => {
            let ghost a = AnalysisView {
                node: prop_view(root_property),
                defs: definitions@,
                name: title@,
            };
            let s = Schema {
                schema: "http://json-schema.org/draft-07/schema#",
                title,
                root_property,
                definitions,
            };
            proof {
                assert(s@ =~= spec_schema(*root)->Ok_0);
            }
            Ok(s)
        },
        Err(e) => Err(e),
    }
}

} // verus!
