//! Flattening of an arbitrarily nested record into an ordered list of
//! (dotted path, scalar value) fields.
//!
//! Keyed aggregates extend the path by their key. Tuples extend it by one
//! ordinal segment (`_0`, `_1`, ...) per element. Unkeyed sequences do not
//! extend the path at all: their elements repeat the sequence's own path, so
//! a homogeneous list stays single-typed under one path. The whole traversal
//! is specified by the `s_*` spec functions below, and the executable
//! collector is proved to follow them exactly.

use vstd::prelude::*;

use crate::error::Error;
use crate::path::CompM;
use crate::path::FieldPath;
use crate::path::PathM;
use crate::path::comp_names;
use crate::path::spec_join;
use crate::render::bool_to_string;
use crate::render::char_to_string;
use crate::render::i64_to_string;
use crate::render::spec_bool;
use crate::render::spec_dec;
use crate::render::spec_dec_i64;
use crate::render::u64_to_string;
use crate::value::Value;
use crate::value::ValueV;
use crate::value::clone_bytes;

verus! {

broadcast use
    vstd::seq::axiom_seq_index_decreases,
    vstd::seq::axiom_seq_subrange_decreases,
    vstd::std_specs::vec::axiom_vec_decreases_to_view;

/// A map key: a scalar that can be rendered to a path segment. `Invalid`
/// stands for any key of a kind that cannot be rendered; flattening rejects
/// the record when it meets one.
pub enum Key {
    Str(String),
    Signed(i64),
    Unsigned(u64),
    Bool(bool),
    Char(char),
    Invalid,
}

/// An arbitrarily nested record. Scalars sit at the leaves; floats are
/// carried as their raw 64-bit pattern.
pub enum Node {
    Bool(bool),
    Signed(i64),
    Unsigned(u64),
    Float(u64),
    Char(char),
    Str(String),
    Bytes(Vec<u8>),
    Unit,
    List(Vec<Node>),
    Tuple(Vec<Node>),
    Object(Vec<(Key, Node)>),
    Variant(String, Box<Node>),
}

/// The collector's control state: the path stack and the pending field name
/// set by a keyed aggregate for the value about to be flattened.
#[verifier::ext_equal]
pub struct StM {
    pub path: PathM,
    pub cur: Option<Seq<char>>,
}

/// The state a flattening starts from.
pub open spec fn st_init() -> StM {
    StM { path: PathM { anon: 0, comps: Seq::empty() }, cur: Option::None }
}

/// Entering an aggregate: a pending field name becomes a new path component;
/// with no pending name the path is left alone.
pub open spec fn s_push(st: StM, allow: bool) -> StM {
    match st.cur {
        Option::Some(f) => StM {
            path: PathM {
                anon: st.path.anon,
                comps: st.path.comps.push(CompM { anon: 0, allow, name: f }),
            },
            cur: Option::None,
        },
        Option::None => st,
    }
}

/// Leaving an aggregate: drops the innermost component, if any.
pub open spec fn s_pop(st: StM) -> StM {
    if st.path.comps.len() > 0 {
        StM {
            path: PathM { anon: st.path.anon, comps: st.path.comps.drop_last() },
            cur: st.cur,
        }
    } else {
        st
    }
}

/// Emitting one scalar: the field's path, and how the state moves.
///
/// Under a component that forbids child fields (an unkeyed sequence) the
/// scalar repeats that component's path, and a pending field name there is a
/// shape error. Otherwise a pending name extends the path by one segment, and
/// with no pending name a fresh ordinal label is drawn from the innermost
/// component (or the root).
pub open spec fn s_emit(st: StM, v: ValueV) -> Result<(StM, (Seq<char>, ValueV)), Error> {
    let comps = st.path.comps;
    if comps.len() > 0 && !comps.last().allow {
        if st.cur is Some {
            Err(Error::UnsupportedShape)
        } else {
            Ok((st, (spec_join(comp_names(comps)), v)))
        }
    } else {
        match st.cur {
            Option::Some(f) => Ok(
                (
                    StM { path: st.path, cur: Option::None },
                    (spec_join(comp_names(comps).push(f)), v),
                ),
            ),
            Option::None => {
                if comps.len() > 0 {
                    let c = comps.last();
                    if c.anon >= u64::MAX {
                        Err(Error::Overflow)
                    } else {
                        let label = seq!['_'] + spec_dec(c.anon);
                        let comps2 = comps.update(
                            comps.len() - 1,
                            CompM { anon: c.anon + 1, allow: c.allow, name: c.name },
                        );
                        Ok(
                            (
                                StM {
                                    path: PathM { anon: st.path.anon, comps: comps2 },
                                    cur: Option::None,
                                },
                                (spec_join(comp_names(comps).push(label)), v),
                            ),
                        )
                    }
                } else {
                    if st.path.anon >= u64::MAX {
                        Err(Error::Overflow)
                    } else {
                        let label = seq!['_'] + spec_dec(st.path.anon);
                        Ok(
                            (
                                StM {
                                    path: PathM { anon: st.path.anon + 1, comps },
                                    cur: Option::None,
                                },
                                (spec_join(comp_names(comps).push(label)), v),
                            ),
                        )
                    }
                }
            },
        }
    }
}

/// How a map key renders to a path segment, or fails.
pub open spec fn s_key(k: Key) -> Result<Seq<char>, Error> {
    match k {
        Key::Str(s) => Ok(s@),
        Key::Signed(v) => Ok(spec_dec_i64(v)),
        Key::Unsigned(v) => Ok(spec_dec(v as nat)),
        Key::Bool(b) => Ok(spec_bool(b)),
        Key::Char(c) => Ok(seq![c]),
        Key::Invalid => Err(Error::InvalidKey),
    }
}

/// Emitting one scalar, as a one-field flattening step.
pub open spec fn s_scalar(st: StM, v: ValueV) -> Result<
    (StM, Seq<(Seq<char>, ValueV)>),
    Error,
> {
    match s_emit(st, v) {
        Ok(res) => Ok((res.0, seq![res.1])),
        Err(e) => Err(e),
    }
}

/// Flattening one node: the fields it emits and the state it leaves.
pub open spec fn s_node(st: StM, n: Node) -> Result<(StM, Seq<(Seq<char>, ValueV)>), Error>
    decreases n,
{
    match n {
        Node::Bool(b) => s_scalar(st, ValueV::Bool(b)),
        Node::Signed(v) => s_scalar(st, ValueV::Signed(v)),
        Node::Unsigned(v) => s_scalar(st, ValueV::Unsigned(v)),
        Node::Float(bits) => s_scalar(st, ValueV::Float(bits)),
        Node::Char(c) => s_scalar(st, ValueV::Str(seq![c])),
        Node::Str(s) => s_scalar(st, ValueV::Str(s@)),
        Node::Bytes(b) => s_scalar(st, ValueV::Bytes(b@)),
        Node::Unit => s_scalar(st, ValueV::Absent),
        Node::List(children) => {
            match s_list(s_push(st, false), children@) {
                Ok(res) => Ok((s_pop(res.0), res.1)),
                Err(e) => Err(e),
            }
        },
        Node::Tuple(children) => {
            match s_list(s_push(st, true), children@) {
                Ok(res) => Ok((s_pop(res.0), res.1)),
                Err(e) => Err(e),
            }
        },
        Node::Object(entries) => {
            match s_entries(s_push(st, true), entries@) {
                Ok(res) => Ok((s_pop(res.0), res.1)),
                Err(e) => Err(e),
            }
        },
        Node::Variant(_, _) => Err(Error::UnsupportedVariant),
    }
}

/// Flattening the elements of an unkeyed aggregate, in order.
pub open spec fn s_list(st: StM, ns: Seq<Node>) -> Result<
    (StM, Seq<(Seq<char>, ValueV)>),
    Error,
>
    decreases ns,
{
    if ns.len() == 0 {
        Ok((st, Seq::empty()))
    } else {
        match s_node(st, ns[0]) {
            Ok(res1) => {
                match s_list(res1.0, ns.subrange(1, ns.len() as int)) {
                    Ok(res2) => Ok((res2.0, res1.1 + res2.1)),
                    Err(e) => Err(e),
                }
            },
            Err(e) => Err(e),
        }
    }
}

/// Flattening the entries of a keyed aggregate, in order: each key becomes
/// the pending field name for its value.
pub open spec fn s_entries(st: StM, es: Seq<(Key, Node)>) -> Result<
    (StM, Seq<(Seq<char>, ValueV)>),
    Error,
>
    decreases es,
{
    if es.len() == 0 {
        Ok((st, Seq::empty()))
    } else if st.cur is Some {
        Err(Error::UnsupportedShape)
    } else {
        match s_key(es[0].0) {
            Ok(name) => {
                match s_node(StM { path: st.path, cur: Option::Some(name) }, es[0].1) {
                    Ok(res1) => {
                        match s_entries(res1.0, es.subrange(1, es.len() as int)) {
                            Ok(res2) => Ok((res2.0, res1.1 + res2.1)),
                            Err(e) => Err(e),
                        }
                    },
                    Err(e) => Err(e),
                }
            },
            Err(e) => Err(e),
        }
    }
}

/// The flattening of a whole record, from the initial state.
pub open spec fn spec_flatten(n: Node) -> Result<Seq<(Seq<char>, ValueV)>, Error> {
    match s_node(st_init(), n) {
        Ok(res) => Ok(res.1),
        Err(e) => Err(e),
    }
}

/// The shapes of a field list: each path paired with each value's view.
pub open spec fn fields_view(s: Seq<(String, Value)>) -> Seq<(Seq<char>, ValueV)> {
    s.map(|i: int, p: (String, Value)| (p.0@, p.1@))
}

/// Law: flattening is deterministic. The flattened field sequence, order
/// included, is a function of the record alone, so flattening equal records
/// twice yields identical sequences.
pub proof fn lemma_flatten_deterministic(a: Node, b: Node)
    requires
        a == b,
    ensures
        spec_flatten(a) == spec_flatten(b),
{
}

/// The collector that walks a record and gathers flattened fields.
pub struct FieldCollector {
    pub path: FieldPath,
    pub current_field: Option<String>,
    pub fields: Vec<(String, Value)>,
}

impl FieldCollector {
    /// The control state this collector is in.
    pub open spec fn st(&self) -> StM {
        StM {
            path: self.path@,
            cur: match self.current_field {
                Option::Some(f) => Option::Some(f@),
                Option::None => Option::None,
            },
        }
    }

    /// The fields gathered so far, as shapes.
    pub open spec fn fields_v(&self) -> Seq<(Seq<char>, ValueV)> {
        fields_view(self.fields@)
    }

    /// A fresh collector with an empty path and no fields.
    pub fn new() -> (r: FieldCollector)
        ensures
            r.st() == st_init(),
            r.fields_v() == Seq::<(Seq<char>, ValueV)>::empty(),
    {
        let r = FieldCollector {
            path: FieldPath::new(),
            current_field: None,
            fields: Vec::new(),
        };
        proof {
            assert(r.st().path.comps =~= st_init().path.comps);
            assert(r.st() =~= st_init());
            assert(r.fields_v() =~= Seq::<(Seq<char>, ValueV)>::empty());
        }
        r
    }

    /// Records the field name the next value will be emitted under.
    pub fn set_current_field(&mut self, field: String)
        requires
            old(self).st().cur is None,
        ensures
            final(self).st() == (StM { path: old(self).st().path, cur: Option::Some(field@) }),
            final(self).fields_v() == old(self).fields_v(),
    {
        self.current_field = Some(field);
    }

    /// Enters an aggregate whose children may extend the path.
    pub fn push_path(&mut self)
        ensures
            final(self).st() == s_push(old(self).st(), true),
            final(self).fields_v() == old(self).fields_v(),
    {
        let cur = self.current_field.take();
        match cur {
            Some(field) => self.path.push(true, field),
            None => (),
        }
    }

    /// Enters an unkeyed sequence: children repeat the sequence's own path.
    pub fn push_path_no_child_fields(&mut self)
        ensures
            final(self).st() == s_push(old(self).st(), false),
            final(self).fields_v() == old(self).fields_v(),
    {
        let cur = self.current_field.take();
        match cur {
            Some(field) => self.path.push(false, field),
            None => (),
        }
    }

    /// Leaves the innermost aggregate.
    pub fn pop_path(&mut self)
        ensures
            final(self).st() == s_pop(old(self).st()),
            final(self).fields_v() == old(self).fields_v(),
    {
        self.path.pop();
    }

    /// Emits one scalar at the current path, exactly as [`s_emit`] says.
    pub fn move_next_field(&mut self, value: Value) -> (r: Result<(), Error>)
        ensures
            match s_emit(old(self).st(), value@) {
                Ok(res) => {
                    &&& r is Ok
                    &&& final(self).st() == res.0
                    &&& final(self).fields_v() == old(self).fields_v().push(res.1)
                },
                Err(e) => r == Err::<(), Error>(e),
            },
    {
        let ghost stv = self.st();
        let len = self.path.components.len();
        if len > 0 && !self.path.components[len - 1].allow_child_fields {
            if self.current_field.is_some() {
                return Err(Error::UnsupportedShape);
            }
            let field = self.path.current();
            self.fields.push((field, value));
            proof {
                assert(final(self).fields_v() =~= old(self).fields_v().push(
                    (field@, value@),
                ));
            }
            Ok(())
        } else {
            let cur = self.current_field.take();
            match cur {
                Some(field) => {
                    let path = self.path.current_to(field.as_str());
                    self.fields.push((path, value));
                    proof {
                        assert(final(self).fields_v() =~= old(self).fields_v().push(
                            (path@, value@),
                        ));
                        assert(final(self).st() =~= s_emit(stv, value@)->Ok_0.0);
                    }
                    Ok(())
                },
                None => {
                    let counter = if len > 0 {
                        self.path.components[len - 1].anonymous
                    } else {
                        self.path.anonymous
                    };
                    if counter == u64::MAX {
                        return Err(Error::Overflow);
                    }
                    let field = self.path.anonymous();
                    let path = self.path.current_to(field.as_str());
                    self.fields.push((path, value));
                    proof {
                        if stv.path.comps.len() > 0 {
                            assert(comp_names(self.path@.comps) =~= comp_names(stv.path.comps));
                        }
                        assert(final(self).fields_v() =~= old(self).fields_v().push(
                            (path@, value@),
                        ));
                        assert(final(self).st() =~= s_emit(stv, value@)->Ok_0.0);
                    }
                    Ok(())
                },
            }
        }
    }
}

/// Renders a map key to its path segment, exactly as [`s_key`] says.
pub fn render_key(k: &Key) -> (r: Result<String, Error>)
    ensures
        match s_key(*k) {
            Ok(s) => r matches Ok(v) && v@ == s,
            Err(e) => r matches Err(e2) && e2 == e,
        },
{
    match k {
        Key::Str(s) => Ok(s.clone()),
        Key::Signed(v) => Ok(i64_to_string(*v)),
        Key::Unsigned(v) => Ok(u64_to_string(*v)),
        Key::Bool(b) => Ok(bool_to_string(*b)),
        Key::Char(c) => Ok(char_to_string(*c)),
        Key::Invalid => Err(Error::InvalidKey),
    }
}

/// Emits one scalar and wraps it as a one-field step.
fn flatten_scalar(c: &mut FieldCollector, value: Value) -> (r: Result<(), Error>)
    ensures
        match s_scalar(old(c).st(), value@) {
            Ok(res) => {
                &&& r is Ok
                &&& final(c).st() == res.0
                &&& final(c).fields_v() == old(c).fields_v() + res.1
            },
            Err(e) => r == Err::<(), Error>(e),
        },
{
    let r = c.move_next_field(value);
    proof {
        match s_emit(old(c).st(), value@) {
            Ok(res) => {
                assert(old(c).fields_v().push(res.1) =~= old(c).fields_v() + seq![res.1]);
            },
            Err(_) => (),
        }
    }
    r
}

/// Flattens one node into the collector, exactly as [`s_node`] says.
pub fn flatten_node(c: &mut FieldCollector, n: &Node) -> (r: Result<(), Error>)
    ensures
        match s_node(old(c).st(), *n) {
            Ok(res) => {
                &&& r is Ok
                &&& final(c).st() == res.0
                &&& final(c).fields_v() == old(c).fields_v() + res.1
            },
            Err(e) => r == Err::<(), Error>(e),
        },
    decreases *n, 0int,
{
    match n {
        Node::Bool(b) => flatten_scalar(c, Value::Bool(*b)),
        Node::Signed(v) => flatten_scalar(c, Value::Signed(*v)),
        Node::Unsigned(v) => flatten_scalar(c, Value::Unsigned(*v)),
        Node::Float(bits) => flatten_scalar(c, Value::Float(*bits)),
        Node::Char(ch) => flatten_scalar(c, Value::Str(char_to_string(*ch))),
        Node::Str(s) => flatten_scalar(c, Value::Str(s.clone())),
        Node::Bytes(b) => flatten_scalar(c, Value::Bytes(clone_bytes(b))),
        Node::Unit => flatten_scalar(c, Value::Absent),
        Node::List(children) => {
            c.push_path_no_child_fields();
            let r1 = flatten_list(c, children, 0);
            proof {
                assert(children@.subrange(0, children@.len() as int) =~= children@);
            }
            match r1 {
                Ok(()) => {
                    c.pop_path();
                    Ok(())
                },
                Err(e) => Err(e),
            }
        },
        Node::Tuple(children) => {
            c.push_path();
            let r1 = flatten_list(c, children, 0);
            proof {
                assert(children@.subrange(0, children@.len() as int) =~= children@);
            }
            match r1 {
                Ok(()) => {
                    c.pop_path();
                    Ok(())
                },
                Err(e) => Err(e),
            }
        },
        Node::Object(entries) => {
            c.push_path();
            let r1 = flatten_entries(c, entries, 0);
            proof {
                assert(entries@.subrange(0, entries@.len() as int) =~= entries@);
            }
            match r1 {
                Ok(()) => {
                    c.pop_path();
                    Ok(())
                },
                Err(e) => Err(e),
            }
        },
        Node::Variant(_, _) => Err(Error::UnsupportedVariant),
    }
}

/// Flattens the elements of `ns` from `i` on, exactly as [`s_list`] says.
fn flatten_list(c: &mut FieldCollector, ns: &Vec<Node>, i: usize) -> (r: Result<(), Error>)
    requires
        i <= ns@.len(),
    ensures
        match s_list(old(c).st(), ns@.subrange(i as int, ns@.len() as int)) {
            Ok(res) => {
                &&& r is Ok
                &&& final(c).st() == res.0
                &&& final(c).fields_v() == old(c).fields_v() + res.1
            },
            Err(e) => r == Err::<(), Error>(e),
        },
    decreases ns@, ns@.len() - i,
{
    let ghost rest = ns@.subrange(i as int, ns@.len() as int);
    if i == ns.len() {
        proof {
            assert(old(c).fields_v() + Seq::<(Seq<char>, ValueV)>::empty() =~= old(
                c,
            ).fields_v());
        }
        Ok(())
    } else {
        proof {
            assert(rest[0] == ns@[i as int]);
            assert(rest.subrange(1, rest.len() as int) =~= ns@.subrange(
                i as int + 1,
                ns@.len() as int,
            ));
        }
        let r1 = flatten_node(c, &ns[i]);
        match r1 {
            Ok(()) => {
                let r2 = flatten_list(c, ns, i + 1);
                proof {
                    match s_list(old(c).st(), rest) {
                        Ok(res) => {
                            assert(final(c).fields_v() =~= old(c).fields_v() + res.1);
                        },
                        Err(_) => (),
                    }
                }
                r2
            },
            Err(e) => Err(e),
        }
    }
}

/// Flattens the entries of `es` from `i` on, exactly as [`s_entries`] says.
fn flatten_entries(c: &mut FieldCollector, es: &Vec<(Key, Node)>, i: usize) -> (r: Result<
    (),
    Error,
>)
    requires
        i <= es@.len(),
    ensures
        match s_entries(old(c).st(), es@.subrange(i as int, es@.len() as int)) {
            Ok(res) => {
                &&& r is Ok
                &&& final(c).st() == res.0
                &&& final(c).fields_v() == old(c).fields_v() + res.1
            },
            Err(e) => r == Err::<(), Error>(e),
        },
    decreases es@, es@.len() - i,
{
    let ghost rest = es@.subrange(i as int, es@.len() as int);
    if i == es.len() {
        proof {
            assert(old(c).fields_v() + Seq::<(Seq<char>, ValueV)>::empty() =~= old(
                c,
            ).fields_v());
        }
        return Ok(());
    }
    proof {
        assert(rest[0] == es@[i as int]);
        assert(rest.subrange(1, rest.len() as int) =~= es@.subrange(
            i as int + 1,
            es@.len() as int,
        ));
    }
    if has_pending_field(c) {
        return Err(Error::UnsupportedShape);
    }
    let key_r = render_key(&es[i].0);
    match key_r {
        Ok(name) => {
            c.set_current_field(name);
            let r1 = flatten_node(c, &es[i].1);
            match r1 {
                Ok(()) => {
                    let r2 = flatten_entries(c, es, i + 1);
                    proof {
                        match s_entries(old(c).st(), rest) {
                            Ok(res) => {
                                assert(final(c).fields_v() =~= old(c).fields_v() + res.1);
                            },
                            Err(_) => (),
                        }
                    }
                    r2
                },
                Err(e) => Err(e),
            }
        },
        Err(e) => Err(e),
    }
}

/// Whether a pending field name is set.
fn has_pending_field(c: &FieldCollector) -> (r: bool)
    ensures
        r == (c.st().cur is Some),
{
    c.current_field.is_some()
}

/// Flattens a whole record into its ordered field list, exactly as
/// [`spec_flatten`] says: total on every supported shape, rejecting
/// data-carrying variants, unrenderable map keys, and keyed aggregates whose
/// fields sit directly inside an unkeyed sequence.
pub fn flatten(n: &Node) -> (r: Result<Vec<(String, Value)>, Error>)
    ensures
        match spec_flatten(*n) {
            Ok(fs) => r matches Ok(v) && fields_view(v@) == fs,
            Err(e) => r matches Err(e2) && e2 == e,
        },
{
    let mut c = FieldCollector::new();
    let r1 = flatten_node(&mut c, n);
    match r1 {
        Ok(()) => {
            proof {
                match s_node(st_init(), *n) {
                    Ok(res) => {
                        assert(Seq::<(Seq<char>, ValueV)>::empty() + res.1 =~= res.1);
                    },
                    Err(_) => (),
                }
            }
            Ok(c.fields)
        },
        Err(e) => Err(e),
    }
}

} // verus!
