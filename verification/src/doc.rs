//! A flattened record: its ordered fields and the fingerprint that routes it
//! to the index for its shape.

use vstd::prelude::*;

use crate::error::Error;
use crate::fingerprint::fingerprint;
use crate::fingerprint::shape_of;
use crate::fingerprint::spec_fingerprint;
use crate::flatten::Node;
use crate::flatten::fields_view;
use crate::flatten::flatten;
use crate::flatten::spec_flatten;
use crate::schema::FieldSchema;
use crate::schema::Stored;
use crate::schema::build_schema;
use crate::schema::doc_view;
use crate::schema::lemma_materialize_total;
use crate::schema::materialize;
use crate::schema::s_materialize;
use crate::schema::spec_build_schema;
use crate::value::Value;

verus! {

/// A record after flattening: immutable fields plus the fingerprint of their
/// shape. Several fields may share one path (repeated sequence elements).
pub struct Doc {
    pub index: u64,
    pub fields: Vec<(String, Value)>,
}

impl Doc {
    /// Whether this record carries the fingerprint its own fields imply.
    pub open spec fn wf(&self) -> bool {
        self.index == spec_fingerprint(shape_of(fields_view(self.fields@)))
    }

    /// Flattens a record and fingerprints its shape.
    pub fn build(node: &Node) -> (r: Result<Doc, Error>)
        ensures
            match spec_flatten(*node) {
                Ok(fs) => {
                    &&& r matches Ok(d)
                    &&& fields_view(d.fields@) == fs
                    &&& d.index == spec_fingerprint(shape_of(fs))
                    &&& d.wf()
                },
                Err(e) => r matches Err(e2) && e2 == e,
            },
    {
        let fields = match flatten(node) {
            Ok(fields) => fields,
            Err(e) => {
                return Err(e);
            },
        };
        let index = fingerprint(&fields);
        Ok(Doc { index, fields })
    }

    /// The fingerprint this record routes to.
    pub fn index(&self) -> (r: u64)
        ensures
            r == self.index,
    {
        self.index
    }

    /// The flattened fields, in traversal order.
    pub fn fields(&self) -> (r: &Vec<(String, Value)>)
        ensures
            r == &self.fields,
    {
        &self.fields
    }

    /// Derives the schema this record implies and materializes its fields
    /// against it. Succeeds exactly when no path occurs with two different
    /// types; the schema and encoded document are pinned by
    /// [`spec_build_schema`] and [`s_materialize`].
    pub fn indexable(&self) -> (r: Result<IndexableDoc, Error>)
        ensures
            match spec_build_schema(shape_of(fields_view(self.fields@))) {
                Ok(sch) => {
                    &&& r matches Ok(d)
                    &&& d.index == self.index
                    &&& d.schema.view_fields() == sch
                    &&& d.schema.wf()
                    &&& s_materialize(sch, fields_view(self.fields@)) == Ok::<
                        _,
                        Error,
                    >(doc_view(d.doc@))
                },
                Err(e) => r matches Err(e2) && e2 == e,
            },
    {
        let schema = match build_schema(&self.fields) {
            Ok(s) => s,
            Err(e) => {
                return Err(e);
            },
        };
        proof {
            lemma_materialize_total(schema.view_fields(), fields_view(self.fields@));
        }
        let doc = match materialize(&self.fields, &schema) {
            Ok(d) => d,
            Err(e) => {
                return Err(e);
            },
        };
        Ok(IndexableDoc { index: self.index, schema, doc })
    }
}

/// A record ready for the engine: its fingerprint, the schema its shape
/// implies, and its fields encoded for storage.
#[derive(Debug)]
pub struct IndexableDoc {
    pub index: u64,
    pub schema: FieldSchema,
    pub doc: Vec<(String, Stored)>,
}

} // verus!
