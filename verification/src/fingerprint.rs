//! The routing fingerprint of a record: a 64-bit FNV-1a style hash over the
//! ordered sequence of (path, type tag) pairs of its flattened fields.
//! Values never enter the hash, so records of one shape share a fingerprint.

use vstd::prelude::*;

use crate::flatten::fields_view;
use crate::value::Ty;
use crate::value::Value;
use crate::value::ValueV;

verus! {

pub const FNV_OFFSET: u64 = 0xcbf29ce484222325;

pub const FNV_PRIME: u64 = 0x100000001b3;

/// Tags are folded in above the highest code point, so a tag can never
/// collide with a path character.
pub const TAG_BASE: u64 = 0x110000;

/// One hash step: fold `x` into `h`.
pub open spec fn fnv_step(h: u64, x: u64) -> u64 {
    (((h ^ x) as nat * FNV_PRIME as nat) % 0x10000000000000000) as u64
}

/// Folds every character of `s` into `h`, front first.
pub open spec fn fnv_chars(h: u64, s: Seq<char>) -> u64
    decreases s.len(),
{
    if s.len() == 0 {
        h
    } else {
        fnv_chars(fnv_step(h, s[0] as u64), s.subrange(1, s.len() as int))
    }
}

/// The numeric code of a type tag.
pub open spec fn ty_code(t: Ty) -> u64 {
    match t {
        Ty::Signed => 1,
        Ty::Unsigned => 2,
        Ty::Float => 3,
        Ty::Bytes => 4,
        Ty::Str => 5,
        Ty::Bool => 6,
        Ty::Absent => 7,
    }
}

/// The shape of a field list: each path with its value's type tag.
pub open spec fn shape_of(fields: Seq<(Seq<char>, ValueV)>) -> Seq<(Seq<char>, Ty)> {
    fields.map(|i: int, f: (Seq<char>, ValueV)| (f.0, f.1.ty()))
}

/// Folds every (path, tag) pair of `shape` into `h`, front first.
pub open spec fn fnv_shape(h: u64, shape: Seq<(Seq<char>, Ty)>) -> u64
    decreases shape.len(),
{
    if shape.len() == 0 {
        h
    } else {
        fnv_shape(
            fnv_step(fnv_chars(h, shape[0].0), (TAG_BASE + ty_code(shape[0].1)) as u64),
            shape.subrange(1, shape.len() as int),
        )
    }
}

/// The fingerprint of a shape.
pub open spec fn spec_fingerprint(shape: Seq<(Seq<char>, Ty)>) -> u64 {
    fnv_shape(FNV_OFFSET, shape)
}

/// Law: the fingerprint is a function of shape alone. Field lists with the
/// same ordered (path, type tag) pairs receive the same fingerprint,
/// whatever scalar values they carry.
pub proof fn lemma_fingerprint_of_shape(
    a: Seq<(Seq<char>, ValueV)>,
    b: Seq<(Seq<char>, ValueV)>,
)
    requires
        shape_of(a) == shape_of(b),
    ensures
        spec_fingerprint(shape_of(a)) == spec_fingerprint(shape_of(b)),
{
}

/// Law: fingerprint equivalence. Two records whose flattened field lists
/// carry the same ordered (path, type tag) shape receive the same
/// fingerprint, whatever their scalar values; a record routes by shape
/// alone.
pub proof fn lemma_fingerprint_equivalence(a: crate::flatten::Node, b: crate::flatten::Node)
    requires
        crate::flatten::spec_flatten(a) is Ok,
        crate::flatten::spec_flatten(b) is Ok,
        shape_of(crate::flatten::spec_flatten(a)->Ok_0) == shape_of(
            crate::flatten::spec_flatten(b)->Ok_0,
        ),
    ensures
        spec_fingerprint(shape_of(crate::flatten::spec_flatten(a)->Ok_0)) == spec_fingerprint(
            shape_of(crate::flatten::spec_flatten(b)->Ok_0),
        ),
{
}

fn tag_of(t: Ty) -> (r: u64)
    ensures
        r == ty_code(t),
{
    match t {
        Ty::Signed => 1,
        Ty::Unsigned => 2,
        Ty::Float => 3,
        Ty::Bytes => 4,
        Ty::Str => 5,
        Ty::Bool => 6,
        Ty::Absent => 7,
    }
}

/// Computes the fingerprint of a flattened field list.
pub fn fingerprint(fields: &Vec<(String, Value)>) -> (r: u64)
    ensures
        r == spec_fingerprint(shape_of(fields_view(fields@))),
{
    let ghost shape = shape_of(fields_view(fields@));
    let mut h: u64 = FNV_OFFSET;
    let mut i: usize = 0;
    proof {
        assert(shape.subrange(0, shape.len() as int) =~= shape);
    }
    while i < fields.len()
        invariant
            i <= fields.len(),
            shape == shape_of(fields_view(fields@)),
            shape.len() == fields.len(),
            spec_fingerprint(shape) == fnv_shape(h, shape.subrange(i as int, shape.len() as int)),
        decreases fields.len() - i,
    {
        let ghost rest = shape.subrange(i as int, shape.len() as int);
        proof {
            assert(rest[0] == shape[i as int]);
            assert(rest.subrange(1, rest.len() as int) =~= shape.subrange(
                i as int + 1,
                shape.len() as int,
            ));
        }
        let path: &String = &fields[i].0;
        let ghost p = path@;
        proof {
            assert(shape[i as int].0 == p);
            assert(shape[i as int].1 == fields@[i as int].1@.ty());
        }
        let n = path.as_str().unicode_len();
        let mut j: usize = 0;
        let ghost h0 = h;
        proof {
            assert(p.subrange(0, p.len() as int) =~= p);
        }
        while j < n
            invariant
                j <= n,
                n == p.len(),
                p == path@,
                fnv_chars(h0, p) == fnv_chars(h, p.subrange(j as int, p.len() as int)),
            decreases n - j,
        {
            let ghost prest = p.subrange(j as int, p.len() as int);
            proof {
                assert(prest[0] == p[j as int]);
                assert(prest.subrange(1, prest.len() as int) =~= p.subrange(
                    j as int + 1,
                    p.len() as int,
                ));
            }
            let c = path.as_str().get_char(j);
            h = (h ^ (c as u64)).wrapping_mul(FNV_PRIME);
            j += 1;
        }
        proof {
            assert(p.subrange(p.len() as int, p.len() as int) =~= Seq::<char>::empty());
            assert(fnv_chars(h, Seq::<char>::empty()) == h);
        }
        let tag = tag_of(fields[i].1.ty());
        h = (h ^ (TAG_BASE + tag)).wrapping_mul(FNV_PRIME);
        i += 1;
    }
    proof {
        assert(shape.subrange(shape.len() as int, shape.len() as int) =~= Seq::<
            (Seq<char>, Ty),
        >::empty());
    }
    h
}

} // verus!
