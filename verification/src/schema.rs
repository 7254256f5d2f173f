//! Per-shape schema building and document materialization.
//!
//! The schema of a fingerprint maps each distinct field path to the type tag
//! first observed there; a later field at the same path with another type is
//! a conflict. Materializing encodes each field for storage: numerics as
//! 64-bit columns (floats by their bit pattern), booleans as the words
//! "true"/"false", strings as text, byte buffers as opaque bytes, and absent
//! values as nothing at all.

use vstd::prelude::*;

use crate::error::Error;
use crate::fingerprint::shape_of;
use crate::flatten::fields_view;
use crate::render::bool_to_string;
use crate::render::spec_bool;
use crate::value::Ty;
use crate::value::Value;
use crate::value::ValueV;
use crate::value::clone_bytes;

verus! {

/// How a schema field is indexed, by the type tag first seen at its path.
#[derive(Clone, Copy, Debug, PartialEq, Eq, Structural)]
pub enum FieldKind {
    /// A fast numeric column: sortable, not full-text.
    Numeric,
    /// An opaque bytes column: stored only.
    Opaque,
    /// A keyword column: stored, exact-match searchable.
    Keyword,
    /// A full-text column: stored, tokenized.
    Text,
}

/// The field kind a type tag maps to; absent values materialize no field.
pub open spec fn spec_kind_of(t: Ty) -> Option<FieldKind> {
    match t {
        Ty::Signed => Option::Some(FieldKind::Numeric),
        Ty::Unsigned => Option::Some(FieldKind::Numeric),
        Ty::Float => Option::Some(FieldKind::Numeric),
        Ty::Bytes => Option::Some(FieldKind::Opaque),
        Ty::Bool => Option::Some(FieldKind::Keyword),
        Ty::Str => Option::Some(FieldKind::Text),
        Ty::Absent => Option::None,
    }
}

/// The field kind a type tag maps to.
pub fn kind_of(t: Ty) -> (r: Option<FieldKind>)
    ensures
        r == spec_kind_of(t),
{
    match t {
        Ty::Signed => Some(FieldKind::Numeric),
        Ty::Unsigned => Some(FieldKind::Numeric),
        Ty::Float => Some(FieldKind::Numeric),
        Ty::Bytes => Some(FieldKind::Opaque),
        Ty::Bool => Some(FieldKind::Keyword),
        Ty::Str => Some(FieldKind::Text),
        Ty::Absent => None,
    }
}

/// A schema: each distinct path with the type tag first observed there, in
/// first-occurrence order.
#[derive(Debug)]
pub struct FieldSchema {
    pub fields: Vec<(String, Ty)>,
}

/// The shape of a schema.
pub open spec fn schema_view(s: Seq<(String, Ty)>) -> Seq<(Seq<char>, Ty)> {
    s.map(|i: int, f: (String, Ty)| (f.0@, f.1))
}

impl FieldSchema {
    /// This schema's shape.
    pub open spec fn view_fields(&self) -> Seq<(Seq<char>, Ty)> {
        schema_view(self.fields@)
    }

    /// Well-formed: no path occurs on two rows, which is what building from
    /// a field list guarantees and what registering the rows with the
    /// engine needs.
    pub open spec fn wf(&self) -> bool {
        forall|i: int, j: int|
            0 <= i < j < self.view_fields().len() ==> (#[trigger] self.view_fields()[i]).0 != (
            #[trigger] self.view_fields()[j]).0
    }
}

/// The type tag recorded for `p`, scanning front first.
pub open spec fn s_lookup(sch: Seq<(Seq<char>, Ty)>, p: Seq<char>) -> Option<Ty>
    decreases sch.len(),
{
    if sch.len() == 0 {
        Option::None
    } else if sch[0].0 == p {
        Option::Some(sch[0].1)
    } else {
        s_lookup(sch.subrange(1, sch.len() as int), p)
    }
}

/// Folds a shape into a schema: first occurrence of a path records its tag,
/// a repeat must match it exactly.
pub open spec fn s_build(acc: Seq<(Seq<char>, Ty)>, shape: Seq<(Seq<char>, Ty)>) -> Result<
    Seq<(Seq<char>, Ty)>,
    Error,
>
    decreases shape.len(),
{
    if shape.len() == 0 {
        Ok(acc)
    } else {
        match s_lookup(acc, shape[0].0) {
            Option::Some(t0) => {
                if t0 == shape[0].1 {
                    s_build(acc, shape.subrange(1, shape.len() as int))
                } else {
                    Err(Error::SchemaConflict)
                }
            },
            Option::None => s_build(
                acc.push(shape[0]),
                shape.subrange(1, shape.len() as int),
            ),
        }
    }
}

/// The schema a shape implies, or the conflict that stops it.
pub open spec fn spec_build_schema(shape: Seq<(Seq<char>, Ty)>) -> Result<
    Seq<(Seq<char>, Ty)>,
    Error,
> {
    s_build(Seq::empty(), shape)
}

/// Law: schema building is a function of shape alone. Field lists with the
/// same ordered (path, type tag) pairs yield identical schemas, whatever
/// scalar values they carry.
pub proof fn lemma_schema_stability(a: Seq<(Seq<char>, ValueV)>, b: Seq<(Seq<char>, ValueV)>)
    requires
        shape_of(a) == shape_of(b),
    ensures
        spec_build_schema(shape_of(a)) == spec_build_schema(shape_of(b)),
{
}

/// A missing lookup means the path is on no row.
proof fn lemma_lookup_none(sch: Seq<(Seq<char>, Ty)>, p: Seq<char>)
    requires
        s_lookup(sch, p) is None,
    ensures
        forall|j: int| 0 <= j < sch.len() ==> (#[trigger] sch[j]).0 != p,
    decreases sch.len(),
{
    if sch.len() > 0 {
        lemma_lookup_none(sch.subrange(1, sch.len() as int), p);
        assert forall|j: int| 0 <= j < sch.len() implies (#[trigger] sch[j]).0 != p by {
            if j > 0 {
                assert(sch.subrange(1, sch.len() as int)[j - 1] == sch[j]);
            }
        }
    }
}

/// A distinct-path accumulator builds a distinct-path schema: a path is
/// appended only when looking it up misses.
proof fn lemma_build_unique(acc: Seq<(Seq<char>, Ty)>, shape: Seq<(Seq<char>, Ty)>)
    requires
        s_build(acc, shape) is Ok,
        forall|i: int, j: int|
            0 <= i < j < acc.len() ==> (#[trigger] acc[i]).0 != (#[trigger] acc[j]).0,
    ensures
        forall|i: int, j: int|
            0 <= i < j < s_build(acc, shape)->Ok_0.len() ==> (#[trigger] s_build(
                acc,
                shape,
            )->Ok_0[i]).0 != (#[trigger] s_build(acc, shape)->Ok_0[j]).0,
    decreases shape.len(),
{
    if shape.len() > 0 {
        let rest = shape.subrange(1, shape.len() as int);
        match s_lookup(acc, shape[0].0) {
            Option::Some(_) => {
                lemma_build_unique(acc, rest);
            },
            Option::None => {
                lemma_lookup_none(acc, shape[0].0);
                let acc2 = acc.push(shape[0]);
                assert forall|i: int, j: int| 0 <= i < j < acc2.len() implies (
                #[trigger] acc2[i]).0 != (#[trigger] acc2[j]).0 by {
                    if j == acc.len() {
                        assert(acc2[i] == acc[i]);
                        assert(acc2[j] == shape[0]);
                    } else {
                        assert(acc2[i] == acc[i]);
                        assert(acc2[j] == acc[j]);
                    }
                }
                lemma_build_unique(acc2, rest);
            },
        }
    }
}

/// Looks a path up in a schema's field list, exactly as [`s_lookup`] says.
pub fn schema_lookup(fields: &Vec<(String, Ty)>, p: &String) -> (r: Option<Ty>)
    ensures
        r == s_lookup(schema_view(fields@), p@),
{
    let ghost sch = schema_view(fields@);
    let mut i: usize = 0;
    proof {
        assert(sch.subrange(0, sch.len() as int) =~= sch);
    }
    while i < fields.len()
        invariant
            i <= fields.len(),
            sch == schema_view(fields@),
            sch.len() == fields.len(),
            s_lookup(sch, p@) == s_lookup(sch.subrange(i as int, sch.len() as int), p@),
        decreases fields.len() - i,
    {
        let ghost rest = sch.subrange(i as int, sch.len() as int);
        proof {
            assert(rest[0] == sch[i as int]);
            assert(rest.subrange(1, rest.len() as int) =~= sch.subrange(
                i as int + 1,
                sch.len() as int,
            ));
        }
        if fields[i].0 == *p {
            return Some(fields[i].1);
        }
        i += 1;
    }
    proof {
        assert(sch.subrange(sch.len() as int, sch.len() as int) =~= Seq::<
            (Seq<char>, Ty),
        >::empty());
    }
    None
}

/// Builds the schema for a flattened field list, exactly as
/// [`spec_build_schema`] says: `Ok` unless one path occurs with two type
/// tags, in which case the conflict is reported.
pub fn build_schema(fields: &Vec<(String, Value)>) -> (r: Result<FieldSchema, Error>)
    ensures
        match spec_build_schema(shape_of(fields_view(fields@))) {
            Ok(sch) => r matches Ok(s) && s.view_fields() == sch && s.wf(),
            Err(e) => r matches Err(e2) && e2 == e,
        },
{
    let ghost shape = shape_of(fields_view(fields@));
    let mut acc: Vec<(String, Ty)> = Vec::new();
    let mut i: usize = 0;
    proof {
        assert(shape.subrange(0, shape.len() as int) =~= shape);
        assert(schema_view(acc@) =~= Seq::<(Seq<char>, Ty)>::empty());
    }
    while i < fields.len()
        invariant
            i <= fields.len(),
            shape == shape_of(fields_view(fields@)),
            shape.len() == fields.len(),
            spec_build_schema(shape) == s_build(
                schema_view(acc@),
                shape.subrange(i as int, shape.len() as int),
            ),
        decreases fields.len() - i,
    {
        let ghost rest = shape.subrange(i as int, shape.len() as int);
        proof {
            assert(rest[0] == shape[i as int]);
            assert(rest.subrange(1, rest.len() as int) =~= shape.subrange(
                i as int + 1,
                shape.len() as int,
            ));
            assert(shape[i as int].0 == fields@[i as int].0@);
            assert(shape[i as int].1 == fields@[i as int].1@.ty());
        }
        let t = fields[i].1.ty();
        match schema_lookup(&acc, &fields[i].0) {
            Some(t0) => {
                if t0 != t {
                    return Err(Error::SchemaConflict);
                }
            },
            None => {
                let ghost acc0 = acc@;
                let path = fields[i].0.clone();
                acc.push((path, t));
                proof {
                    assert(schema_view(acc@) =~= schema_view(acc0).push(
                        (fields@[i as int].0@, t),
                    ));
                }
            },
        }
        i += 1;
    }
    proof {
        assert(shape.subrange(shape.len() as int, shape.len() as int) =~= Seq::<
            (Seq<char>, Ty),
        >::empty());
        lemma_build_unique(Seq::empty(), shape);
    }
    Ok(FieldSchema { fields: acc })
}

/// One value encoded for storage.
#[derive(Clone, Debug, PartialEq)]
pub enum Stored {
    I64(i64),
    U64(u64),
    Bytes(Vec<u8>),
    Text(String),
}

/// The shape of a stored value.
pub enum StoredV {
    I64(i64),
    U64(u64),
    Bytes(Seq<u8>),
    Text(Seq<char>),
}

impl View for Stored {
    type V = StoredV;

    open spec fn view(&self) -> StoredV {
        match self {
            Stored::I64(v) => StoredV::I64(*v),
            Stored::U64(v) => StoredV::U64(*v),
            Stored::Bytes(v) => StoredV::Bytes(v@),
            Stored::Text(v) => StoredV::Text(v@),
        }
    }
}

/// How one value encodes for storage; absent values encode to nothing.
pub open spec fn spec_encode(v: ValueV) -> Option<StoredV> {
    match v {
        ValueV::Signed(x) => Option::Some(StoredV::I64(x)),
        ValueV::Unsigned(x) => Option::Some(StoredV::U64(x)),
        ValueV::Float(bits) => Option::Some(StoredV::U64(bits)),
        ValueV::Bytes(b) => Option::Some(StoredV::Bytes(b)),
        ValueV::Bool(b) => Option::Some(StoredV::Text(spec_bool(b))),
        ValueV::Str(s) => Option::Some(StoredV::Text(s)),
        ValueV::Absent => Option::None,
    }
}

/// The shapes of an encoded document.
pub open spec fn doc_view(s: Seq<(String, Stored)>) -> Seq<(Seq<char>, StoredV)> {
    s.map(|i: int, f: (String, Stored)| (f.0@, f.1@))
}

/// Encodes a field list against a schema: every stored field's path must be
/// in the schema; repeated paths append repeated values.
pub open spec fn s_materialize(
    sch: Seq<(Seq<char>, Ty)>,
    fields: Seq<(Seq<char>, ValueV)>,
) -> Result<Seq<(Seq<char>, StoredV)>, Error>
    decreases fields.len(),
{
    if fields.len() == 0 {
        Ok(Seq::empty())
    } else {
        let rest = fields.subrange(1, fields.len() as int);
        match spec_encode(fields[0].1) {
            Option::None => s_materialize(sch, rest),
            Option::Some(sv) => {
                if s_lookup(sch, fields[0].0) is Some {
                    match s_materialize(sch, rest) {
                        Ok(tail) => Ok(seq![(fields[0].0, sv)] + tail),
                        Err(e) => Err(e),
                    }
                } else {
                    Err(Error::MissingField)
                }
            },
        }
    }
}

/// Looking a path up after appending an entry: hits in the front are
/// untouched, and a miss now falls through to the appended entry.
proof fn lemma_lookup_push(acc: Seq<(Seq<char>, Ty)>, x: (Seq<char>, Ty), p: Seq<char>)
    ensures
        s_lookup(acc, p) is Some ==> s_lookup(acc.push(x), p) == s_lookup(acc, p),
        s_lookup(acc, p) is None ==> s_lookup(acc.push(x), p) == (if x.0 == p {
            Option::Some(x.1)
        } else {
            Option::<Ty>::None
        }),
    decreases acc.len(),
{
    if acc.len() == 0 {
        assert(acc.push(x)[0] == x);
        assert(acc.push(x).subrange(1, acc.push(x).len() as int) =~= Seq::<
            (Seq<char>, Ty),
        >::empty());
        assert(s_lookup(Seq::<(Seq<char>, Ty)>::empty(), p) is None);
        assert(s_lookup(acc, p) is None);
    } else {
        assert(acc.push(x)[0] == acc[0]);
        assert(acc.push(x).subrange(1, acc.push(x).len() as int) =~= acc.subrange(
            1,
            acc.len() as int,
        ).push(x));
        lemma_lookup_push(acc.subrange(1, acc.len() as int), x, p);
    }
}

/// A built schema covers what its accumulator already covered, and every
/// path of the shape it was built from.
proof fn lemma_build_covers(acc: Seq<(Seq<char>, Ty)>, shape: Seq<(Seq<char>, Ty)>)
    requires
        s_build(acc, shape) is Ok,
    ensures
        forall|p: Seq<char>|
            s_lookup(acc, p) is Some ==> #[trigger] s_lookup(
                s_build(acc, shape)->Ok_0,
                p,
            ) is Some,
        forall|i: int|
            0 <= i < shape.len() ==> #[trigger] s_lookup(
                s_build(acc, shape)->Ok_0,
                shape[i].0,
            ) is Some,
    decreases shape.len(),
{
    if shape.len() > 0 {
        let rest = shape.subrange(1, shape.len() as int);
        match s_lookup(acc, shape[0].0) {
            Option::Some(_) => {
                lemma_build_covers(acc, rest);
            },
            Option::None => {
                assert forall|p: Seq<char>| s_lookup(acc, p) is Some implies #[trigger] s_lookup(
                    acc.push(shape[0]),
                    p,
                ) is Some by {
                    lemma_lookup_push(acc, shape[0], p);
                }
                lemma_lookup_push(acc, shape[0], shape[0].0);
                lemma_build_covers(acc.push(shape[0]), rest);
            },
        }
        assert forall|i: int| 0 <= i < shape.len() implies #[trigger] s_lookup(
            s_build(acc, shape)->Ok_0,
            shape[i].0,
        ) is Some by {
            if i > 0 {
                assert(rest[i - 1] == shape[i]);
            }
        }
    }
}

/// Materializing a field list against the schema built from those same
/// fields cannot miss a path.
pub proof fn lemma_materialize_total(
    sch: Seq<(Seq<char>, Ty)>,
    fields: Seq<(Seq<char>, ValueV)>,
)
    requires
        spec_build_schema(shape_of(fields)) == Ok::<Seq<(Seq<char>, Ty)>, Error>(sch),
    ensures
        s_materialize(sch, fields) is Ok,
{
    lemma_build_covers(Seq::empty(), shape_of(fields));
    lemma_mat_ok(sch, fields, shape_of(fields), 0);
}

/// Materializing succeeds whenever every stored field's path is in the
/// schema.
proof fn lemma_mat_ok(
    sch: Seq<(Seq<char>, Ty)>,
    fields: Seq<(Seq<char>, ValueV)>,
    whole: Seq<(Seq<char>, Ty)>,
    k: int,
)
    requires
        0 <= k <= whole.len(),
        shape_of(fields) =~= whole.subrange(k, whole.len() as int),
        forall|i: int|
            0 <= i < whole.len() ==> #[trigger] s_lookup(sch, whole[i].0) is Some,
    ensures
        s_materialize(sch, fields) is Ok,
    decreases fields.len(),
{
    if fields.len() > 0 {
        let rest = fields.subrange(1, fields.len() as int);
        assert(shape_of(fields).len() == fields.len());
        assert(whole.subrange(k, whole.len() as int).len() == whole.len() - k);
        assert(k < whole.len());
        assert(shape_of(fields)[0] == (fields[0].0, fields[0].1.ty()));
        assert(whole.subrange(k, whole.len() as int)[0] == whole[k]);
        assert(whole[k] == (fields[0].0, fields[0].1.ty()));
        assert(s_lookup(sch, whole[k].0) is Some);
        assert forall|j: int| 0 <= j < rest.len() implies shape_of(rest)[j] == whole.subrange(
            k + 1,
            whole.len() as int,
        )[j] by {
            assert(rest[j] == fields[j + 1]);
            assert(shape_of(fields)[j + 1] == whole.subrange(k, whole.len() as int)[j + 1]);
        }
        assert(shape_of(rest) =~= whole.subrange(k + 1, whole.len() as int));
        lemma_mat_ok(sch, rest, whole, k + 1);
    }
}

/// Encodes one value for storage, or nothing for an absent value.
pub fn encode(v: &Value) -> (r: Option<Stored>)
    ensures
        match spec_encode(v@) {
            Option::Some(sv) => r matches Some(s) && s@ == sv,
            Option::None => r is None,
        },
{
    match v {
        Value::Signed(x) => Some(Stored::I64(*x)),
        Value::Unsigned(x) => Some(Stored::U64(*x)),
        Value::Float(bits) => Some(Stored::U64(*bits)),
        Value::Bytes(b) => Some(Stored::Bytes(clone_bytes(b))),
        Value::Bool(b) => Some(Stored::Text(bool_to_string(*b))),
        Value::Str(s) => Some(Stored::Text(s.clone())),
        Value::Absent => None,
    }
}

/// Materializes a field list against a schema, exactly as
/// [`s_materialize`] says: `Ok` whenever every stored field's path is in
/// the schema, `Err` naming the first missing one otherwise.
pub fn materialize(fields: &Vec<(String, Value)>, schema: &FieldSchema) -> (r: Result<
    Vec<(String, Stored)>,
    Error,
>)
    ensures
        match s_materialize(schema.view_fields(), fields_view(fields@)) {
            Ok(d) => r matches Ok(out) && doc_view(out@) == d,
            Err(e) => r matches Err(e2) && e2 == e,
        },
{
    let ghost sch = schema.view_fields();
    let ghost fs = fields_view(fields@);
    let mut out: Vec<(String, Stored)> = Vec::new();
    let mut i: usize = 0;
    proof {
        assert(fs.subrange(0, fs.len() as int) =~= fs);
        assert(doc_view(out@) =~= Seq::<(Seq<char>, StoredV)>::empty());
    }
    while i < fields.len()
        invariant
            i <= fields.len(),
            sch == schema.view_fields(),
            fs == fields_view(fields@),
            fs.len() == fields.len(),
            match s_materialize(sch, fs.subrange(i as int, fs.len() as int)) {
                Ok(tail) => s_materialize(sch, fs) == Ok::<Seq<(Seq<char>, StoredV)>, Error>(
                    doc_view(out@) + tail,
                ),
                Err(e) => s_materialize(sch, fs) == Err::<Seq<(Seq<char>, StoredV)>, Error>(e),
            },
        decreases fields.len() - i,
    {
        let ghost rest = fs.subrange(i as int, fs.len() as int);
        proof {
            assert(rest[0] == fs[i as int]);
            assert(rest.subrange(1, rest.len() as int) =~= fs.subrange(
                i as int + 1,
                fs.len() as int,
            ));
            assert(fs[i as int].0 == fields@[i as int].0@);
            assert(fs[i as int].1 == fields@[i as int].1@);
        }
        match encode(&fields[i].1) {
            None => (),
            Some(sv) => {
                let found = schema_lookup(&schema.fields, &fields[i].0);
                if found.is_none() {
                    return Err(Error::MissingField);
                }
                let ghost out0 = out@;
                let path = fields[i].0.clone();
                out.push((path, sv));
                proof {
                    let x = (fs[i as int].0, spec_encode(fs[i as int].1)->Some_0);
                    assert(doc_view(out@) =~= doc_view(out0).push(x));
                    match s_materialize(sch, fs.subrange(i as int + 1, fs.len() as int)) {
                        Ok(tail2) => {
                            assert(doc_view(out0) + (seq![x] + tail2) =~= doc_view(out@)
                                + tail2);
                        },
                        Err(_) => (),
                    }
                }
            },
        }
        i += 1;
    }
    proof {
        assert(fs.subrange(fs.len() as int, fs.len() as int) =~= Seq::<
            (Seq<char>, ValueV),
        >::empty());
        assert(doc_view(out@) + Seq::<(Seq<char>, StoredV)>::empty() =~= doc_view(out@));
    }
    Ok(out)
}

} // verus!
