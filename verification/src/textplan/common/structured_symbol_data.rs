//! The structured data that symbols of some kinds carry.

use vstd::prelude::*;

use crate::proto::Relation;
use crate::textplan::common::text_ops::{copy_texts, texts_view};

verus! {

/// Used by Relation symbols to track connectivity: where the pipeline the relation is in
/// starts, the next relation of that pipeline, the next relations of the pipelines it
/// starts, the fields that come into it, the fields it makes and the fields it puts out
/// where these differ from the first two (each a position in the symbol table), the
/// relation itself without any reference to other relations or inputs, and the output names
/// of a root relation.
#[derive(Debug)]
pub struct RelationData {
    pub pipeline_start: Option<usize>,
    pub continuing_pipeline: Option<usize>,
    pub new_pipelines: Vec<usize>,
    pub field_references: Vec<usize>,
    pub generated_field_references: Vec<usize>,
    pub output_field_references: Vec<usize>,
    pub relation: Relation,
    pub root_names: Vec<String>,
}

impl RelationData {
    /// The data of a relation connected to nothing, with no root names.
    pub fn new(relation: Relation) -> (r: Self)
        ensures
            r.pipeline_start is None,
            r.continuing_pipeline is None,
            r.new_pipelines@ == Seq::<usize>::empty(),
            r.field_references@ == Seq::<usize>::empty(),
            r.generated_field_references@ == Seq::<usize>::empty(),
            r.output_field_references@ == Seq::<usize>::empty(),
            r.relation == relation,
            r.root_names@.len() == 0,
    {
        RelationData {
            pipeline_start: None,
            continuing_pipeline: None,
            new_pipelines: Vec::new(),
            field_references: Vec::new(),
            generated_field_references: Vec::new(),
            output_field_references: Vec::new(),
            relation,
            root_names: Vec::new(),
        }
    }

    /// A copy of this data.
    pub fn duplicate(&self) -> (r: Self)
        ensures
            r.pipeline_start == self.pipeline_start,
            r.continuing_pipeline == self.continuing_pipeline,
            r.new_pipelines@ == self.new_pipelines@,
            r.field_references@ == self.field_references@,
            r.generated_field_references@ == self.generated_field_references@,
            r.output_field_references@ == self.output_field_references@,
            r.relation == self.relation,
            texts_view(r.root_names@) == texts_view(self.root_names@),
    {
        RelationData {
            pipeline_start: self.pipeline_start,
            continuing_pipeline: self.continuing_pipeline,
            new_pipelines: self.new_pipelines.clone(),
            field_references: self.field_references.clone(),
            generated_field_references: self.generated_field_references.clone(),
            output_field_references: self.output_field_references.clone(),
            relation: self.relation,
            root_names: copy_texts(self.root_names.as_slice()),
        }
    }
}

/// Used by Schema symbols to keep track of assigned values.
#[derive(Debug, Clone)]
pub struct SchemaData {
    anchor_reference: u32,
}

impl SchemaData {
    /// The anchor assigned to the schema.
    pub closed spec fn spec_anchor_reference(&self) -> u32 {
        self.anchor_reference
    }

    /// Creates the data of a schema with the given anchor.
    pub(crate) fn new(anchor_reference: u32) -> (r: Self)
        ensures
            r.spec_anchor_reference() == anchor_reference,
    {
        SchemaData { anchor_reference }
    }

    /// A copy of this data.
    pub fn duplicate(&self) -> (r: Self)
        ensures
            r.spec_anchor_reference() == self.spec_anchor_reference(),
    {
        SchemaData { anchor_reference: self.anchor_reference }
    }
}

/// Used by Extension Space symbols to keep track of assigned values.
#[derive(Debug, Clone)]
pub struct ExtensionSpaceData {
    anchor_reference: u32,
}

impl ExtensionSpaceData {
    /// The anchor assigned to the extension space.
    pub closed spec fn spec_anchor_reference(&self) -> u32 {
        self.anchor_reference
    }

    /// Creates the data of an extension space with the given anchor.
    pub(crate) fn new(anchor_reference: u32) -> (r: Self)
        ensures
            r.spec_anchor_reference() == anchor_reference,
    {
        ExtensionSpaceData { anchor_reference }
    }

    /// The anchor assigned to the extension space.
    pub fn anchor_reference(&self) -> (r: u32)
        ensures
            r == self.spec_anchor_reference(),
    {
        self.anchor_reference
    }
}

/// Used by Function symbols to keep track of the name and assigned anchors.
#[derive(Debug, Clone)]
pub struct FunctionData {
    pub name: String,
    pub extension_uri_reference: Option<u32>,
    pub anchor: u32,
}

impl FunctionData {
    /// Creates the data of a function.
    pub(crate) fn new(name: String, extension_uri_reference: Option<u32>, anchor: u32) -> (r: Self)
        ensures
            r.name@ == name@,
            r.extension_uri_reference == extension_uri_reference,
            r.anchor == anchor,
    {
        FunctionData { name, extension_uri_reference, anchor }
    }

    /// A copy of this data.
    pub fn duplicate(&self) -> (r: Self)
        ensures
            r.name@ == self.name@,
            r.extension_uri_reference == self.extension_uri_reference,
            r.anchor == self.anchor,
    {
        FunctionData {
            name: self.name.clone(),
            extension_uri_reference: self.extension_uri_reference,
            anchor: self.anchor,
        }
    }
}

} // verus!
