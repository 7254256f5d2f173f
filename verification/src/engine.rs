//! The index engine boundary: type declarations, uninterpreted names for
//! what the engine's handles hold, and one-call wrappers for the tantivy
//! operations the library drives.
//!
//! Each wrapper's contract states what tantivy's own source shows of the
//! call — which fields a builder or schema holds, which values a document
//! carries, which index a writer belongs to — and a `requires` excludes
//! every input on which the call would panic. What depends on engine state
//! (queuing, committing, fetching) promises nothing of its outcome; the
//! verified callers handle every result.

use vstd::prelude::*;

use tantivy::schema::document::Document;

use crate::schema::FieldKind;
use crate::schema::StoredV;

verus! {

#[verifier::external_type_specification]
#[verifier::external_body]
pub struct ExSchema(tantivy::schema::Schema);

#[verifier::external_type_specification]
#[verifier::external_body]
pub struct ExSchemaBuilder(tantivy::schema::SchemaBuilder);

#[verifier::external_type_specification]
#[verifier::external_body]
pub struct ExField(tantivy::schema::Field);

#[verifier::external_type_specification]
#[verifier::external_body]
pub struct ExDocument(tantivy::TantivyDocument);

#[verifier::external_type_specification]
#[verifier::external_body]
pub struct ExIndex(tantivy::Index);

#[verifier::external_type_specification]
#[verifier::external_body]
pub struct ExIndexReader(tantivy::IndexReader);

#[verifier::external_type_specification]
#[verifier::external_body]
pub struct ExSearcher(tantivy::Searcher);

#[verifier::external_type_specification]
#[verifier::external_body]
pub struct ExTantivyError(tantivy::TantivyError);

/// The engine's writer handle, held opaquely: `tantivy::IndexWriter` is
/// generic over an engine trait Verus cannot declare, so the handle is
/// wrapped instead of declared.
#[verifier::external_body]
pub struct EngineWriter {
    inner: tantivy::IndexWriter<tantivy::TantivyDocument>,
}

/// The (name, kind) rows a schema builder has registered, in registration
/// order.
pub uninterp spec fn builder_fields(b: tantivy::schema::SchemaBuilder) -> Seq<
    (Seq<char>, FieldKind),
>;

/// The (name, kind) rows a built schema holds, in registration order; the
/// field with numeric id `i` is row `i`.
pub uninterp spec fn schema_fields(s: tantivy::schema::Schema) -> Seq<(Seq<char>, FieldKind)>;

/// The rows of the schema an index was created with.
pub uninterp spec fn index_fields(i: tantivy::Index) -> Seq<(Seq<char>, FieldKind)>;

/// The rows of the schema behind a reader.
pub uninterp spec fn reader_fields(r: tantivy::IndexReader) -> Seq<(Seq<char>, FieldKind)>;

/// The rows of the schema behind a searcher.
pub uninterp spec fn searcher_fields(s: tantivy::Searcher) -> Seq<(Seq<char>, FieldKind)>;

/// How many segments a searcher holds store readers for.
pub uninterp spec fn searcher_segments(s: tantivy::Searcher) -> nat;

/// The numeric id a field handle carries.
pub uninterp spec fn field_id_of(f: tantivy::schema::Field) -> u64;

/// The (field id, value) pairs a document holds, in insertion order.
pub uninterp spec fn doc_values(d: tantivy::TantivyDocument) -> Seq<(u64, StoredV)>;

/// The index a writer writes to.
pub uninterp spec fn writer_index(w: EngineWriter) -> tantivy::Index;

/// The JSON rendering of a stored document through a schema.
pub uninterp spec fn json_of(d: tantivy::TantivyDocument, s: tantivy::schema::Schema) -> Seq<
    char,
>;

/// Whether every field id of a document lies within a schema's field table,
/// so the document can be rendered through it.
pub open spec fn doc_fits(
    vals: Seq<(u64, StoredV)>,
    fields: Seq<(Seq<char>, FieldKind)>,
) -> bool {
    forall|j: int| 0 <= j < vals.len() ==> (#[trigger] vals[j]).0 < fields.len()
}

/// Relies on Display for tantivy::TantivyError: the engine's own message.
#[verifier::external_body]
pub(crate) fn error_text(e: &tantivy::TantivyError) -> String {
    format!("{}", e)
}

/// Relies on tantivy::schema::Schema::builder: a fresh builder with no
/// fields registered.
#[verifier::external_body]
pub(crate) fn new_schema_builder() -> (r: tantivy::schema::SchemaBuilder)
    ensures
        builder_fields(r) == Seq::<(Seq<char>, FieldKind)>::empty(),
{
    tantivy::schema::Schema::builder()
}

/// Relies on SchemaBuilder::add_i64_field: registers one more row, a fast,
/// stored i64 column. tantivy's add_field panics on a repeated name, so a
/// name already registered is excluded.
#[verifier::external_body]
pub(crate) fn add_i64_fast(b: &mut tantivy::schema::SchemaBuilder, name: &str)
    requires
        forall|j: int|
            0 <= j < builder_fields(*old(b)).len() ==> (#[trigger] builder_fields(
                *old(b),
            )[j]).0 != name@,
    ensures
        builder_fields(*final(b)) == builder_fields(*old(b)).push(
            (name@, FieldKind::Numeric),
        ),
{
    b.add_i64_field(name, tantivy::schema::FAST | tantivy::schema::STORED);
}

/// Relies on SchemaBuilder::add_u64_field: registers one more row, a fast,
/// stored u64 column; a repeated name is excluded (add_field panics).
#[verifier::external_body]
pub(crate) fn add_u64_fast(b: &mut tantivy::schema::SchemaBuilder, name: &str)
    requires
        forall|j: int|
            0 <= j < builder_fields(*old(b)).len() ==> (#[trigger] builder_fields(
                *old(b),
            )[j]).0 != name@,
    ensures
        builder_fields(*final(b)) == builder_fields(*old(b)).push(
            (name@, FieldKind::Numeric),
        ),
{
    b.add_u64_field(name, tantivy::schema::FAST | tantivy::schema::STORED);
}

/// Relies on SchemaBuilder::add_bytes_field: registers one more row, a
/// stored-only bytes column; a repeated name is excluded (add_field
/// panics).
#[verifier::external_body]
pub(crate) fn add_bytes_stored(b: &mut tantivy::schema::SchemaBuilder, name: &str)
    requires
        forall|j: int|
            0 <= j < builder_fields(*old(b)).len() ==> (#[trigger] builder_fields(
                *old(b),
            )[j]).0 != name@,
    ensures
        builder_fields(*final(b)) == builder_fields(*old(b)).push(
            (name@, FieldKind::Opaque),
        ),
{
    b.add_bytes_field(name, tantivy::schema::STORED);
}

/// Relies on SchemaBuilder::add_text_field: registers one more row, a
/// stored keyword column (exact match, untokenized); a repeated name is
/// excluded (add_field panics).
#[verifier::external_body]
pub(crate) fn add_keyword(b: &mut tantivy::schema::SchemaBuilder, name: &str)
    requires
        forall|j: int|
            0 <= j < builder_fields(*old(b)).len() ==> (#[trigger] builder_fields(
                *old(b),
            )[j]).0 != name@,
    ensures
        builder_fields(*final(b)) == builder_fields(*old(b)).push(
            (name@, FieldKind::Keyword),
        ),
{
    b.add_text_field(name, tantivy::schema::STRING | tantivy::schema::STORED);
}

/// Relies on SchemaBuilder::add_text_field: registers one more row, a
/// stored, tokenized full-text column; a repeated name is excluded
/// (add_field panics).
#[verifier::external_body]
pub(crate) fn add_fulltext(b: &mut tantivy::schema::SchemaBuilder, name: &str)
    requires
        forall|j: int|
            0 <= j < builder_fields(*old(b)).len() ==> (#[trigger] builder_fields(
                *old(b),
            )[j]).0 != name@,
    ensures
        builder_fields(*final(b)) == builder_fields(*old(b)).push((name@, FieldKind::Text)),
{
    b.add_text_field(name, tantivy::schema::TEXT | tantivy::schema::STORED);
}

/// Relies on SchemaBuilder::build: the schema holds exactly the registered
/// rows, in order.
#[verifier::external_body]
pub(crate) fn builder_build(b: tantivy::schema::SchemaBuilder) -> (r: tantivy::schema::Schema)
    ensures
        schema_fields(r) == builder_fields(b),
{
    b.build()
}

/// Relies on Schema::get_field: the handle for a registered name carries
/// that row's numeric id; an unregistered name returns nothing.
#[verifier::external_body]
pub(crate) fn get_field(s: &tantivy::schema::Schema, name: &str) -> (r: Option<
    tantivy::schema::Field,
>)
    ensures
        (r matches Some(f) ==> {
            &&& field_id_of(f) < schema_fields(*s).len()
            &&& schema_fields(*s)[field_id_of(f) as int].0 == name@
        }),
        (r is None ==> forall|j: int|
            0 <= j < schema_fields(*s).len() ==> (#[trigger] schema_fields(*s)[j]).0
                != name@),
{
    match s.get_field(name) {
        Ok(f) => Some(f),
        Err(_) => None,
    }
}

/// Relies on TantivyDocument::default: a fresh document with no values.
#[verifier::external_body]
pub(crate) fn new_document() -> (r: tantivy::TantivyDocument)
    ensures
        doc_values(r) == Seq::<(u64, StoredV)>::empty(),
{
    tantivy::TantivyDocument::default()
}

/// Relies on TantivyDocument::add_i64: appends one i64 value under the
/// field. The document stores field ids as u16, so larger ids are excluded
/// (add_leaf_field_value panics on them).
#[verifier::external_body]
pub(crate) fn doc_add_i64(d: &mut tantivy::TantivyDocument, f: tantivy::schema::Field, v: i64)
    requires
        field_id_of(f) <= 0xFFFF,
    ensures
        doc_values(*final(d)) == doc_values(*old(d)).push((field_id_of(f), StoredV::I64(v))),
{
    d.add_i64(f, v);
}

/// Relies on TantivyDocument::add_u64: appends one u64 value under the
/// field; ids beyond u16 are excluded (add_leaf_field_value panics).
#[verifier::external_body]
pub(crate) fn doc_add_u64(d: &mut tantivy::TantivyDocument, f: tantivy::schema::Field, v: u64)
    requires
        field_id_of(f) <= 0xFFFF,
    ensures
        doc_values(*final(d)) == doc_values(*old(d)).push((field_id_of(f), StoredV::U64(v))),
{
    d.add_u64(f, v);
}

/// Relies on TantivyDocument::add_bytes: appends one bytes value under the
/// field; ids beyond u16 are excluded (add_leaf_field_value panics).
#[verifier::external_body]
pub(crate) fn doc_add_bytes(d: &mut tantivy::TantivyDocument, f: tantivy::schema::Field, v: &[u8])
    requires
        field_id_of(f) <= 0xFFFF,
    ensures
        doc_values(*final(d)) == doc_values(*old(d)).push(
            (field_id_of(f), StoredV::Bytes(v@)),
        ),
{
    d.add_bytes(f, v);
}

/// Relies on TantivyDocument::add_text: appends one text value under the
/// field; ids beyond u16 are excluded (add_leaf_field_value panics).
#[verifier::external_body]
pub(crate) fn doc_add_text(d: &mut tantivy::TantivyDocument, f: tantivy::schema::Field, v: &str)
    requires
        field_id_of(f) <= 0xFFFF,
    ensures
        doc_values(*final(d)) == doc_values(*old(d)).push(
            (field_id_of(f), StoredV::Text(v@)),
        ),
{
    d.add_text(f, v);
}

/// Relies on Index::create_in_ram: a fresh in-memory index over exactly
/// this schema (default settings validate and the RAM directory's writes
/// cannot fail, so the internal unwrap cannot fire).
#[verifier::external_body]
pub(crate) fn create_in_ram(s: &tantivy::schema::Schema) -> (r: tantivy::Index)
    ensures
        index_fields(r) == schema_fields(*s),
{
    tantivy::Index::create_in_ram(s.clone())
}

/// Relies on Index::clone: another handle to the same index.
#[verifier::external_body]
pub(crate) fn index_clone(i: &tantivy::Index) -> (r: tantivy::Index)
    ensures
        r == *i,
{
    i.clone()
}

/// Relies on Index::schema: the schema this index was created with.
#[verifier::external_body]
pub(crate) fn index_schema(i: &tantivy::Index) -> (r: tantivy::schema::Schema)
    ensures
        schema_fields(r) == index_fields(*i),
{
    i.schema()
}

/// Relies on Index::writer: a writer on this index with the given memory
/// budget, or the engine's error (a bad budget returns Err, never panics).
#[verifier::external_body]
pub(crate) fn index_writer(i: &tantivy::Index, budget: usize) -> (r: Result<
    EngineWriter,
    tantivy::TantivyError,
>)
    ensures
        r matches Ok(w) ==> writer_index(w) == *i,
{
    match i.writer::<tantivy::TantivyDocument>(budget) {
        Ok(inner) => Ok(EngineWriter { inner }),
        Err(e) => Err(e),
    }
}

/// Relies on IndexWriter::add_document: queues the document with the
/// engine and returns its opstamp, or the engine's error. What becomes of
/// the queued document is engine state; nothing more is promised.
#[verifier::external_body]
pub(crate) fn writer_add_document(
    w: &EngineWriter,
    d: tantivy::TantivyDocument,
) -> Result<u64, tantivy::TantivyError> {
    w.inner.add_document(d)
}

/// Relies on IndexWriter::commit: asks the engine to make queued documents
/// visible to fresh searchers, or returns its error. Visibility is engine
/// state; nothing more is promised.
#[verifier::external_body]
pub(crate) fn writer_commit(w: &mut EngineWriter) -> Result<u64, tantivy::TantivyError> {
    w.inner.commit()
}

/// Relies on Index::reader: a reader over this index's schema, or the
/// engine's error.
#[verifier::external_body]
pub(crate) fn index_reader(i: &tantivy::Index) -> (r: Result<
    tantivy::IndexReader,
    tantivy::TantivyError,
>)
    ensures
        r matches Ok(rd) ==> reader_fields(rd) == index_fields(*i),
{
    i.reader()
}

/// Relies on IndexReader::searcher: a searcher over the reader's current
/// view, carrying the same schema.
#[verifier::external_body]
pub(crate) fn reader_searcher(r: &tantivy::IndexReader) -> (s: tantivy::Searcher)
    ensures
        searcher_fields(s) == reader_fields(*r),
{
    r.searcher()
}

/// Relies on Searcher::segment_readers: how many segments the searcher
/// holds store readers for.
#[verifier::external_body]
pub(crate) fn segment_count(s: &tantivy::Searcher) -> (r: usize)
    ensures
        r as nat == searcher_segments(*s),
{
    s.segment_readers().len()
}

/// Relies on Searcher::doc: fetches the stored document at this (segment,
/// local doc id) address, or the engine's error. An out-of-range segment is
/// excluded (doc indexes the store readers by it). The store holds only
/// documents written through this index's schema, so a fetched document's
/// field ids lie within it.
#[verifier::external_body]
pub(crate) fn searcher_doc(s: &tantivy::Searcher, segment: u32, doc: u32) -> (r: Result<
    tantivy::TantivyDocument,
    tantivy::TantivyError,
>)
    requires
        (segment as nat) < searcher_segments(*s),
    ensures
        r matches Ok(d) ==> doc_fits(doc_values(d), searcher_fields(*s)),
{
    s.doc::<tantivy::TantivyDocument>(tantivy::DocAddress { segment_ord: segment, doc_id: doc })
}

/// Relies on Document::to_json: the stored document rendered as a JSON
/// field map through the schema. Rendering indexes the schema's field table
/// by the document's field ids, so a document that does not fit the schema
/// is excluded.
#[verifier::external_body]
pub(crate) fn doc_to_json(d: &tantivy::TantivyDocument, s: &tantivy::schema::Schema) -> (r: String)
    requires
        doc_fits(doc_values(*d), schema_fields(*s)),
    ensures
        r@ == json_of(*d, *s),
{
    d.to_json(s)
}

} // verus!
