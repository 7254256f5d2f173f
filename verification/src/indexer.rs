//! The indexer: routes one record through flatten, fingerprint, schema and
//! materialization, appends the document to its fingerprint's index, and
//! commits at once, caching one open writer per fingerprint it has written.

use vstd::prelude::*;

use crate::doc::Doc;
use crate::doc::IndexableDoc;
use crate::engine::EngineWriter;
use crate::engine::doc_add_bytes;
use crate::engine::doc_add_i64;
use crate::engine::doc_add_text;
use crate::engine::doc_add_u64;
use crate::engine::doc_values;
use crate::engine::error_text;
use crate::engine::get_field;
use crate::engine::new_document;
use crate::engine::schema_fields;
use crate::engine::writer_add_document;
use crate::engine::writer_commit;
use crate::error::Error;
use crate::fingerprint::shape_of;
use crate::fingerprint::spec_fingerprint;
use crate::flatten::Node;
use crate::flatten::fields_view;
use crate::flatten::spec_flatten;
use crate::schema::FieldKind;
use crate::schema::Stored;
use crate::schema::StoredV;
use crate::schema::doc_view;
use crate::schema::s_materialize;
use crate::schema::spec_build_schema;
use crate::store::Store;
use crate::store::engine_field_count;
use crate::store::engine_schema;
use crate::store::has_id;
use crate::store::spec_engine_fields;
use crate::store::unique_ids;
use crate::value::Ty;

verus! {

/// The fingerprint a record routes to, where it flattens at all.
pub open spec fn fingerprint_of(n: Node) -> u64 {
    spec_fingerprint(shape_of(spec_flatten(n)->Ok_0))
}

/// Whether a path has an engine row.
pub open spec fn engine_has_path(fs: Seq<(Seq<char>, FieldKind)>, p: Seq<char>) -> bool {
    exists|k: int| 0 <= k < fs.len() && (#[trigger] fs[k]).0 == p
}

/// Whether a materialized document can be handed to the engine: its
/// schema's rows fit the engine's field-id space, and every stored path
/// has a row.
pub open spec fn engine_ready(
    sch: Seq<(Seq<char>, Ty)>,
    vals: Seq<(Seq<char>, StoredV)>,
) -> bool {
    &&& spec_engine_fields(sch).len() <= 0x10000
    &&& forall|j: int|
        0 <= j < vals.len() ==> engine_has_path(spec_engine_fields(sch), (#[trigger] vals[j]).0)
}

/// Fills an engine document from the materialized fields, looking each
/// path's field handle up in the engine schema built for this record's
/// shape: the result holds exactly the materialized values, each under the
/// row of its own path. It fails exactly when the engine cannot take the
/// record: a stored path without a row, or more rows than the document
/// format's u16 field ids address.
pub fn engine_document(doc: &IndexableDoc) -> (r: Result<tantivy::TantivyDocument, Error>)
    requires
        doc.schema.wf(),
    ensures
        r is Ok <==> engine_ready(doc.schema.view_fields(), doc_view(doc.doc@)),
        r matches Ok(d) ==> {
            &&& doc_values(d).len() == doc_view(doc.doc@).len()
            &&& forall|j: int|
                0 <= j < doc_view(doc.doc@).len() ==> {
                    let ef = spec_engine_fields(doc.schema.view_fields());
                    &&& (#[trigger] doc_values(d)[j]).0 < ef.len()
                    &&& ef[doc_values(d)[j].0 as int].0 == doc_view(doc.doc@)[j].0
                    &&& doc_values(d)[j].1 == doc_view(doc.doc@)[j].1
                }
        },
        r matches Err(e) ==> (e == Error::MissingField || e matches Error::Engine(_)),
{
    let ghost ef = spec_engine_fields(doc.schema.view_fields());
    let ghost vals = doc_view(doc.doc@);
    let count = engine_field_count(&doc.schema);
    if count > 0x10000 {
        return Err(
            Error::Engine(
                "the schema needs more columns than the engine's document format addresses".to_owned(),
            ),
        );
    }
    let eng = engine_schema(&doc.schema);
    let mut d = new_document();
    let mut i: usize = 0;
    while i < doc.doc.len()
        invariant
            i <= doc.doc@.len(),
            ef == spec_engine_fields(doc.schema.view_fields()),
            ef.len() <= 0x10000,
            vals == doc_view(doc.doc@),
            vals.len() == doc.doc@.len(),
            schema_fields(eng) == ef,
            doc_values(d).len() == i,
            forall|j: int|
                0 <= j < i ==> {
                    &&& (#[trigger] doc_values(d)[j]).0 < ef.len()
                    &&& ef[doc_values(d)[j].0 as int].0 == vals[j].0
                    &&& doc_values(d)[j].1 == vals[j].1
                },
            forall|j: int| 0 <= j < i ==> engine_has_path(ef, (#[trigger] vals[j]).0),
        decreases doc.doc@.len() - i,
    {
        proof {
            assert(vals[i as int].0 == doc.doc@[i as int].0@);
            assert(vals[i as int].1 == doc.doc@[i as int].1@);
        }
        let field = match get_field(&eng, doc.doc[i].0.as_str()) {
            Some(f) => f,
            None => {
                proof {
                    assert(!engine_has_path(ef, vals[i as int].0));
                }
                return Err(Error::MissingField);
            },
        };
        let ghost d0 = doc_values(d);
        match &doc.doc[i].1 {
            Stored::I64(v) => doc_add_i64(&mut d, field, *v),
            Stored::U64(v) => doc_add_u64(&mut d, field, *v),
            Stored::Bytes(v) => doc_add_bytes(&mut d, field, v.as_slice()),
            Stored::Text(v) => doc_add_text(&mut d, field, v.as_str()),
        }
        proof {
            assert(doc_values(d).last().1 == vals[i as int].1);
            assert(engine_has_path(ef, vals[i as int].0));
        }
        i += 1;
    }
    Ok(d)
}

/// The fingerprints of the cached writers, in insertion order.
pub open spec fn writer_ids(s: Seq<(u64, EngineWriter)>) -> Seq<u64> {
    s.map(|i: int, p: (u64, EngineWriter)| p.0)
}

/// A per-session writer cache bound to one registry: each fingerprint this
/// indexer has written keeps its open writer, and every cached fingerprint
/// is registered. One indexer serves one logical writer; sharing across
/// threads takes outside synchronization.
pub struct Indexer {
    pub store: Store,
    pub writers: Vec<(u64, EngineWriter)>,
}

impl Indexer {
    /// The fingerprints this indexer holds writers for.
    pub open spec fn ids(&self) -> Seq<u64> {
        writer_ids(self.writers@)
    }

    /// Well-formed: the registry is, no fingerprint has two cached
    /// writers, and every cached fingerprint is registered.
    pub open spec fn wf(&self) -> bool {
        &&& self.store.wf()
        &&& unique_ids(self.ids())
        &&& forall|j: int|
            0 <= j < self.ids().len() ==> has_id(self.store.ids(), #[trigger] self.ids()[j])
    }

    /// An indexer over the given registry, with an empty writer cache.
    pub fn new(store: Store) -> (r: Indexer)
        requires
            store.wf(),
        ensures
            r.ids() == Seq::<u64>::empty(),
            r.store == store,
            r.wf(),
    {
        let r = Indexer { store, writers: Vec::new() };
        proof {
            assert(r.ids() =~= Seq::<u64>::empty());
        }
        r
    }

    /// The registry this indexer writes to.
    pub fn store(&self) -> (r: &Store)
        ensures
            r == &self.store,
    {
        &self.store
    }

    /// The position of a fingerprint's cached writer, if any.
    fn find(&self, id: u64) -> (r: Option<usize>)
        ensures
            match r {
                Some(j) => j < self.writers@.len() && self.writers@[j as int].0 == id,
                None => !has_id(self.ids(), id),
            },
    {
        let mut i: usize = 0;
        while i < self.writers.len()
            invariant
                i <= self.writers@.len(),
                forall|j: int| 0 <= j < i ==> #[trigger] self.writers@[j].0 != id,
            decreases self.writers@.len() - i,
        {
            if self.writers[i].0 == id {
                return Some(i);
            }
            i += 1;
        }
        proof {
            assert forall|j: int| 0 <= j < self.ids().len() implies #[trigger] self.ids()[j]
                != id by {
                assert(self.writers@[j].0 != id);
            }
        }
        None
    }

    /// Indexes one record: flatten, fingerprint, derive its schema,
    /// materialize, append to the fingerprint's index, and commit at once.
    ///
    /// A record that cannot flatten, or whose paths conflict in type, is
    /// rejected with exactly the error the flattening and schema
    /// specifications name, and leaves the writer cache and the registry
    /// untouched. Engine failures are wrapped verbatim. On success the
    /// record's fingerprint is registered and holds a cached writer, and a
    /// document the engine can take was handed to that fingerprint's
    /// writer; a writer is cached only after its first commit succeeded,
    /// so a failed call leaves no half-populated cache entry.
    /// Appends the record to the cached writer at `j` and commits.
    fn commit_cached(&mut self, j: usize, indexable: &IndexableDoc) -> (r: Result<(), Error>)
        requires
            old(self).wf(),
            j < old(self).writers@.len(),
            indexable.schema.wf(),
        ensures
            final(self).wf(),
            final(self).ids() == old(self).ids(),
            final(self).store == old(self).store,
            r is Ok ==> engine_ready(indexable.schema.view_fields(), doc_view(indexable.doc@)),
    {
        let eng_doc = match engine_document(indexable) {
            Ok(d) => d,
            Err(e) => {
                return Err(e);
            },
        };
        let added = writer_add_document(&self.writers[j].1, eng_doc);
        match added {
            Ok(_) => (),
            Err(e) => {
                return Err(Error::Engine(error_text(&e)));
            },
        }
        let committed = writer_commit(&mut self.writers[j].1);
        proof {
            assert(final(self).ids() =~= old(self).ids());
        }
        match committed {
            Ok(_) => Ok(()),
            Err(e) => Err(Error::Engine(error_text(&e))),
        }
    }

    /// First record of a fingerprint: acquires a writer through the
    /// registry, appends and commits, and caches the writer only once the
    /// commit succeeded.
    fn index_fresh(&mut self, fp: u64, indexable: &IndexableDoc) -> (r: Result<(), Error>)
        requires
            old(self).wf(),
            !has_id(old(self).ids(), fp),
            fp == indexable.index,
            indexable.schema.wf(),
        ensures
            final(self).wf(),
            r is Ok ==> {
                &&& final(self).ids() == old(self).ids().push(fp)
                &&& has_id(final(self).ids(), fp)
                &&& has_id(final(self).store.ids(), fp)
                &&& engine_ready(indexable.schema.view_fields(), doc_view(indexable.doc@))
            },
            r is Err ==> final(self).ids() == old(self).ids(),
            final(self).store.ids() == old(self).store.ids() || final(self).store.ids() == old(
                self,
            ).store.ids().push(fp),
    {
        let eng_doc = match engine_document(indexable) {
            Ok(d) => d,
            Err(e) => {
                return Err(e);
            },
        };
        let mut w = match self.store.get_writer(indexable) {
            Ok(w) => w,
            Err(e) => {
                return Err(e);
            },
        };
        proof {
            assert forall|a: int| 0 <= a < self.ids().len() implies has_id(
                self.store.ids(),
                #[trigger] self.ids()[a],
            ) by {
                assert(has_id(old(self).store.ids(), self.ids()[a]));
                lemma_has_id_grow(old(self).store.ids(), self.store.ids(), self.ids()[a], fp);
            }
        }
        match writer_add_document(&w, eng_doc) {
            Ok(_) => (),
            Err(e) => {
                return Err(Error::Engine(error_text(&e)));
            },
        }
        match writer_commit(&mut w) {
            Ok(_) => (),
            Err(e) => {
                return Err(Error::Engine(error_text(&e)));
            },
        }
        let ghost ids0 = self.ids();
        self.writers.push((fp, w));
        proof {
            assert(self.ids() =~= ids0.push(fp));
            assert(self.ids()[self.ids().len() - 1] == fp);
            assert forall|a: int, b: int|
                0 <= a < b < self.ids().len() implies self.ids()[a]
                != self.ids()[b] by {
                if b == self.ids().len() - 1 {
                    assert(self.ids()[a] == ids0[a]);
                }
            }
            assert forall|a: int| 0 <= a < self.ids().len() implies has_id(
                self.store.ids(),
                #[trigger] self.ids()[a],
            ) by {
                if a < self.ids().len() - 1 {
                    assert(self.ids()[a] == ids0[a]);
                    assert(has_id(old(self).store.ids(), ids0[a]));
                    lemma_has_id_grow(
                        old(self).store.ids(),
                        self.store.ids(),
                        ids0[a],
                        fp,
                    );
                }
            }
        }
        Ok(())
    }

    /// Indexes one record: flatten, fingerprint, derive its schema,
    /// materialize, append to the fingerprint's index, and commit at once.
    ///
    /// A record that cannot flatten, or whose paths conflict in type, is
    /// rejected with exactly the error the flattening and schema
    /// specifications name, and leaves the writer cache and the registry
    /// untouched. Engine failures are wrapped verbatim. On success the
    /// record's fingerprint is registered and holds a cached writer, and a
    /// document the engine can take was handed to that fingerprint's
    /// writer; a writer is cached only after its first commit succeeded,
    /// so a failed call leaves no half-populated cache entry.
    pub fn index(&mut self, node: &Node) -> (r: Result<(), Error>)
        requires
            old(self).wf(),
        ensures
            final(self).wf(),
            match spec_flatten(*node) {
                Err(e) => {
                    &&& r == Err::<(), Error>(e)
                    &&& final(self).ids() == old(self).ids()
                    &&& final(self).store.ids() == old(self).store.ids()
                },
                Ok(fs) => match spec_build_schema(shape_of(fs)) {
                    Err(e) => {
                        &&& r == Err::<(), Error>(e)
                        &&& final(self).ids() == old(self).ids()
                        &&& final(self).store.ids() == old(self).store.ids()
                    },
                    Ok(sch) => {
                        &&& (r is Ok ==> has_id(final(self).ids(), fingerprint_of(*node)))
                        &&& (r is Ok ==> has_id(
                            final(self).store.ids(),
                            fingerprint_of(*node),
                        ))
                        &&& (r is Ok ==> engine_ready(sch, s_materialize(sch, fs)->Ok_0))
                        &&& (r is Ok && !has_id(old(self).ids(), fingerprint_of(*node))
                            ==> final(self).ids() == old(self).ids().push(
                            fingerprint_of(*node),
                        ))
                        &&& (r is Err || has_id(old(self).ids(), fingerprint_of(*node))
                            ==> final(self).ids() == old(self).ids())
                        &&& (final(self).store.ids() == old(self).store.ids()
                            || final(self).store.ids() == old(self).store.ids().push(
                            fingerprint_of(*node),
                        ))
                    },
                },
            },
    {
        let doc = match Doc::build(node) {
            Ok(d) => d,
            Err(e) => {
                return Err(e);
            },
        };
        let indexable = match doc.indexable() {
            Ok(i) => i,
            Err(e) => {
                return Err(e);
            },
        };
        let fp = doc.index();
        proof {
            let fs = spec_flatten(*node)->Ok_0;
            let sch = spec_build_schema(shape_of(fs))->Ok_0;
            assert(fields_view(doc.fields@) == fs);
            assert(indexable.schema.view_fields() == sch);
            assert(doc_view(indexable.doc@) == s_materialize(sch, fs)->Ok_0);
            assert(fp == fingerprint_of(*node));
        }
        match self.find(fp) {
            Some(j) => {
                proof {
                    assert(self.ids()[j as int] == fp);
                    assert(has_id(self.ids(), fp));
                    assert(has_id(self.store.ids(), fp));
                }
                self.commit_cached(j, &indexable)
            },
            None => self.index_fresh(fp, &indexable),
        }
    }
}

/// A fingerprint stays present when the registry only appended.
proof fn lemma_has_id_grow(before: Seq<u64>, after: Seq<u64>, id: u64, pushed: u64)
    requires
        has_id(before, id),
        after == before || after == before.push(pushed),
    ensures
        has_id(after, id),
{
    let j = choose|j: int| 0 <= j < before.len() && before[j] == id;
    assert(after[j] == id);
}

} // verus!
