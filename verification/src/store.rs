//! The shared registry: one engine index per fingerprint, created lazily
//! from the schema the first record of that shape implies.

use vstd::prelude::*;

use crate::doc::IndexableDoc;
use crate::engine::EngineWriter;
use crate::engine::add_bytes_stored;
use crate::engine::add_fulltext;
use crate::engine::add_i64_fast;
use crate::engine::add_keyword;
use crate::engine::add_u64_fast;
use crate::engine::builder_build;
use crate::engine::builder_fields;
use crate::engine::create_in_ram;
use crate::engine::error_text;
use crate::engine::index_clone;
use crate::engine::index_fields;
use crate::engine::index_writer;
use crate::engine::new_schema_builder;
use crate::engine::schema_fields;
use crate::engine::writer_index;
use crate::error::Error;
use crate::schema::FieldKind;
use crate::schema::FieldSchema;
use crate::schema::spec_kind_of;
use crate::value::Ty;

verus! {

/// The memory budget handed to each engine writer.
pub const HEAP_SIZE: usize = 50000000;

/// The fingerprints of a registry's entries, in insertion order.
pub open spec fn ids_of(s: Seq<(u64, tantivy::Index)>) -> Seq<u64> {
    s.map(|i: int, p: (u64, tantivy::Index)| p.0)
}

/// Whether a fingerprint is among `ids`.
pub open spec fn has_id(ids: Seq<u64>, id: u64) -> bool {
    exists|j: int| 0 <= j < ids.len() && ids[j] == id
}

/// No fingerprint twice.
pub open spec fn unique_ids(ids: Seq<u64>) -> bool {
    forall|i: int, j: int| 0 <= i < j < ids.len() ==> ids[i] != ids[j]
}

/// The engine rows a schema registers: one per non-absent path, in order,
/// with the column kind its type tag implies.
pub open spec fn spec_engine_fields(s: Seq<(Seq<char>, Ty)>) -> Seq<(Seq<char>, FieldKind)>
    decreases s.len(),
{
    if s.len() == 0 {
        Seq::empty()
    } else {
        let pre = spec_engine_fields(s.drop_last());
        match spec_kind_of(s.last().1) {
            Option::Some(k) => pre.push((s.last().0, k)),
            Option::None => pre,
        }
    }
}

/// Every engine row's path comes from the schema it was derived from.
proof fn lemma_engine_rows_from(s: Seq<(Seq<char>, Ty)>)
    ensures
        forall|k: int|
            0 <= k < spec_engine_fields(s).len() ==> exists|j: int|
                0 <= j < s.len() && (#[trigger] spec_engine_fields(s)[k]).0 == s[j].0,
    decreases s.len(),
{
    if s.len() > 0 {
        lemma_engine_rows_from(s.drop_last());
        let pre = spec_engine_fields(s.drop_last());
        assert forall|k: int| 0 <= k < spec_engine_fields(s).len() implies exists|j: int|
            0 <= j < s.len() && (#[trigger] spec_engine_fields(s)[k]).0 == s[j].0 by {
            if k < pre.len() {
                let j = choose|j: int|
                    0 <= j < s.drop_last().len() && pre[k].0 == s.drop_last()[j].0;
                assert(s.drop_last()[j] == s[j]);
                assert(spec_engine_fields(s)[k] == pre[k]);
            } else {
                assert(spec_engine_fields(s)[k].0 == s[s.len() - 1].0);
            }
        }
    }
}

/// How many engine rows a schema registers.
pub fn engine_field_count(sch: &FieldSchema) -> (r: usize)
    ensures
        r as int == spec_engine_fields(sch.view_fields()).len(),
{
    let ghost view = sch.view_fields();
    let mut count: usize = 0;
    let mut i: usize = 0;
    proof {
        assert(view.take(0) =~= Seq::<(Seq<char>, Ty)>::empty());
    }
    while i < sch.fields.len()
        invariant
            i <= sch.fields.len(),
            view == sch.view_fields(),
            view.len() == sch.fields.len(),
            count <= i,
            count as int == spec_engine_fields(view.take(i as int)).len(),
        decreases sch.fields.len() - i,
    {
        proof {
            assert(view.take(i as int + 1).drop_last() =~= view.take(i as int));
            assert(view.take(i as int + 1).last() == view[i as int]);
            assert(view[i as int].1 == sch.fields@[i as int].1);
        }
        match sch.fields[i].1 {
            Ty::Absent => (),
            _ => {
                count += 1;
            },
        }
        i += 1;
    }
    proof {
        assert(view.take(view.len() as int) =~= view);
    }
    count
}

/// Registers every field of the schema with the engine, in order: signed
/// numerics as i64 columns, unsigned and float (bit pattern) as u64
/// columns, bytes stored-only, booleans as keywords, strings as full text;
/// absent-typed paths register nothing. The schema's paths must be
/// distinct: the engine refuses a repeated field name.
pub fn engine_schema(sch: &FieldSchema) -> (r: tantivy::schema::Schema)
    requires
        sch.wf(),
    ensures
        schema_fields(r) == spec_engine_fields(sch.view_fields()),
{
    let ghost view = sch.view_fields();
    let mut b = new_schema_builder();
    let mut i: usize = 0;
    proof {
        assert(view.take(0) =~= Seq::<(Seq<char>, Ty)>::empty());
        assert(builder_fields(b) =~= spec_engine_fields(view.take(0)));
    }
    while i < sch.fields.len()
        invariant
            i <= sch.fields.len(),
            view == sch.view_fields(),
            sch.wf(),
            view.len() == sch.fields.len(),
            builder_fields(b) == spec_engine_fields(view.take(i as int)),
        decreases sch.fields.len() - i,
    {
        proof {
            assert(view.take(i as int + 1).drop_last() =~= view.take(i as int));
            assert(view.take(i as int + 1).last() == view[i as int]);
            assert(view[i as int].0 == sch.fields@[i as int].0@);
            assert(view[i as int].1 == sch.fields@[i as int].1);
            lemma_engine_rows_from(view.take(i as int));
            assert forall|k: int| 0 <= k < builder_fields(b).len() implies (
            #[trigger] builder_fields(b)[k]).0 != view[i as int].0 by {
                let pre = view.take(i as int);
                assert(spec_engine_fields(pre)[k] == builder_fields(b)[k]);
                let j = choose|j: int|
                    0 <= j < pre.len() && (spec_engine_fields(pre)[k]).0 == pre[j].0;
                assert(pre[j] == view[j]);
            }
        }
        let name = sch.fields[i].0.as_str();
        match sch.fields[i].1 {
            Ty::Signed => add_i64_fast(&mut b, name),
            Ty::Unsigned => add_u64_fast(&mut b, name),
            Ty::Float => add_u64_fast(&mut b, name),
            Ty::Bytes => add_bytes_stored(&mut b, name),
            Ty::Bool => add_keyword(&mut b, name),
            Ty::Str => add_fulltext(&mut b, name),
            Ty::Absent => (),
        }
        proof {
            assert(builder_fields(b) =~= spec_engine_fields(view.take(i as int + 1)));
        }
        i += 1;
    }
    proof {
        assert(view.take(view.len() as int) =~= view);
    }
    builder_build(b)
}

/// The registry of engine indexes, keyed by fingerprint. Grows
/// monotonically; nothing is ever evicted, and no fingerprint is
/// registered twice.
pub struct Store {
    pub entries: Vec<(u64, tantivy::Index)>,
}

impl Store {
    /// The fingerprints registered so far.
    pub open spec fn ids(&self) -> Seq<u64> {
        ids_of(self.entries@)
    }

    /// Well-formed: each fingerprint has exactly one index.
    pub open spec fn wf(&self) -> bool {
        unique_ids(self.ids())
    }

    /// An empty registry.
    pub fn new() -> (r: Store)
        ensures
            r.ids() == Seq::<u64>::empty(),
            r.wf(),
    {
        let r = Store { entries: Vec::new() };
        proof {
            assert(r.ids() =~= Seq::<u64>::empty());
        }
        r
    }

    /// The position of a fingerprint's entry, if it is registered.
    fn find(&self, id: u64) -> (r: Option<usize>)
        ensures
            match r {
                Some(j) => j < self.entries@.len() && self.entries@[j as int].0 == id,
                None => !has_id(self.ids(), id),
            },
    {
        let mut i: usize = 0;
        while i < self.entries.len()
            invariant
                i <= self.entries@.len(),
                forall|j: int| 0 <= j < i ==> #[trigger] self.entries@[j].0 != id,
            decreases self.entries@.len() - i,
        {
            if self.entries[i].0 == id {
                return Some(i);
            }
            i += 1;
        }
        proof {
            assert forall|j: int| 0 <= j < self.ids().len() implies #[trigger] self.ids()[j]
                != id by {
                assert(self.entries@[j].0 != id);
            }
        }
        None
    }

    /// Hands out a writer on the index registered under the record's
    /// fingerprint. An already registered fingerprint keeps its index; a
    /// fresh one has an index created from the record's schema and
    /// registered, under the same exclusive borrow, so no fingerprint is
    /// ever created twice. A new entry is registered only once its writer
    /// was acquired: on an error the registry is unchanged.
    pub fn get_writer(&mut self, doc: &IndexableDoc) -> (r: Result<EngineWriter, Error>)
        requires
            old(self).wf(),
            doc.schema.wf(),
        ensures
            final(self).wf(),
            has_id(old(self).ids(), doc.index) ==> final(self).ids() == old(self).ids(),
            !has_id(old(self).ids(), doc.index) && r is Ok ==> final(self).ids() == old(
                self,
            ).ids().push(doc.index),
            !has_id(old(self).ids(), doc.index) && r is Err ==> final(self).ids() == old(
                self,
            ).ids(),
            r is Ok ==> has_id(final(self).ids(), doc.index),
            r matches Ok(w) ==> exists|j: int|
                0 <= j < final(self).entries@.len() && (#[trigger] final(self).entries@[j]).0
                    == doc.index && writer_index(w) == final(self).entries@[j].1,
            !has_id(old(self).ids(), doc.index) && r is Ok ==> index_fields(
                final(self).entries@.last().1,
            ) == spec_engine_fields(doc.schema.view_fields()),
    {
        match self.find(doc.index) {
            Some(j) => {
                proof {
                    assert(self.ids()[j as int] == doc.index);
                    assert(has_id(self.ids(), doc.index));
                }
                match index_writer(&self.entries[j].1, HEAP_SIZE) {
                    Ok(w) => {
                        proof {
                            assert((final(self).entries@[j as int]).0 == doc.index
                                && writer_index(w) == final(self).entries@[j as int].1);
                        }
                        Ok(w)
                    },
                    Err(e) => Err(Error::Engine(error_text(&e))),
                }
            },
            None => {
                let eng = engine_schema(&doc.schema);
                let index = create_in_ram(&eng);
                match index_writer(&index, HEAP_SIZE) {
                    Ok(w) => {
                        let ghost ids0 = self.ids();
                        self.entries.push((doc.index, index));
                        proof {
                            assert(self.ids() =~= ids0.push(doc.index));
                            assert(self.ids()[self.ids().len() - 1] == doc.index);
                            assert forall|a: int, b: int|
                                0 <= a < b < self.ids().len() implies self.ids()[a]
                                != self.ids()[b] by {
                                if b == self.ids().len() - 1 {
                                    assert(self.ids()[a] == ids0[a]);
                                    assert(!has_id(ids0, doc.index));
                                }
                            }
                            assert((final(self).entries@[final(self).entries@.len() - 1]).0
                                == doc.index);
                        }
                        Ok(w)
                    },
                    Err(e) => Err(Error::Engine(error_text(&e))),
                }
            },
        }
    }

    /// A point-in-time copy of the registered (fingerprint, index) pairs,
    /// safe to iterate while the registry moves on.
    pub fn indexes(&self) -> (r: Vec<(u64, tantivy::Index)>)
        ensures
            r@ == self.entries@,
    {
        let mut r: Vec<(u64, tantivy::Index)> = Vec::new();
        let mut i: usize = 0;
        proof {
            assert(r@ =~= self.entries@.take(0));
        }
        while i < self.entries.len()
            invariant
                i <= self.entries@.len(),
                r@ == self.entries@.take(i as int),
            decreases self.entries@.len() - i,
        {
            let ghost r0 = r@;
            r.push((self.entries[i].0, index_clone(&self.entries[i].1)));
            proof {
                assert(r@ =~= self.entries@.take(i as int + 1));
            }
            i += 1;
        }
        proof {
            assert(self.entries@.take(self.entries@.len() as int) =~= self.entries@);
        }
        r
    }
}

} // verus!
