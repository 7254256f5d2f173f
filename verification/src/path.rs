//! The dotted path under construction while a record is flattened: a stack of
//! named components, each able to hand out ordinal labels (`_0`, `_1`, ...)
//! for unlabeled children.

use vstd::prelude::*;

use crate::render::spec_dec;
use crate::render::u64_to_string;

verus! {

/// One segment of the path: its text, whether unlabeled children below it may
/// extend the path, and how many ordinal labels it has handed out.
pub struct FieldComponent {
    pub anonymous: u64,
    pub allow_child_fields: bool,
    pub value: String,
}

/// The path stack. `anonymous` counts ordinal labels handed out at the root,
/// outside any component.
pub struct FieldPath {
    pub anonymous: u64,
    pub components: Vec<FieldComponent>,
}

/// The shape of one path component.
pub struct CompM {
    pub anon: nat,
    pub allow: bool,
    pub name: Seq<char>,
}

/// The shape of the whole path stack.
pub struct PathM {
    pub anon: nat,
    pub comps: Seq<CompM>,
}

impl View for FieldComponent {
    type V = CompM;

    open spec fn view(&self) -> CompM {
        CompM { anon: self.anonymous as nat, allow: self.allow_child_fields, name: self.value@ }
    }
}

impl View for FieldPath {
    type V = PathM;

    open spec fn view(&self) -> PathM {
        PathM { anon: self.anonymous as nat, comps: self.components@.map(|i: int, c: FieldComponent| c@) }
    }
}

/// The component names, in stack order.
pub open spec fn comp_names(comps: Seq<CompM>) -> Seq<Seq<char>> {
    comps.map(|i: int, c: CompM| c.name)
}

/// Joins segment names with dots. A segment appended to an empty prefix adds
/// no dot, so empty leading segments vanish rather than leaving a bare dot.
pub open spec fn spec_join(names: Seq<Seq<char>>) -> Seq<char>
    decreases names.len(),
{
    if names.len() == 0 {
        Seq::empty()
    } else {
        let pre = spec_join(names.drop_last());
        if pre.len() > 0 {
            pre + seq!['.'] + names.last()
        } else {
            pre + names.last()
        }
    }
}

impl FieldPath {
    /// An empty path.
    pub fn new() -> (r: FieldPath)
        ensures
            r@.anon == 0,
            r@.comps == Seq::<CompM>::empty(),
    {
        let r = FieldPath { anonymous: 0, components: Vec::new() };
        proof {
            assert(r@.comps =~= Seq::<CompM>::empty());
        }
        r
    }

    /// Pushes a fresh component with the given name.
    pub fn push(&mut self, allow_child_fields: bool, field: String)
        ensures
            final(self)@.anon == old(self)@.anon,
            final(self)@.comps == old(self)@.comps.push(
                (CompM { anon: 0, allow: allow_child_fields, name: field@ }),
            ),
    {
        let ghost name = field@;
        self.components.push(FieldComponent {
            anonymous: 0,
            allow_child_fields,
            value: field,
        });
        proof {
            assert(self@.comps =~= old(self)@.comps.push(
                CompM { anon: 0, allow: allow_child_fields, name },
            ));
        }
    }

    /// Drops the innermost component; a no-op on an empty path.
    pub fn pop(&mut self)
        ensures
            final(self)@.anon == old(self)@.anon,
            old(self)@.comps.len() == 0 ==> final(self)@.comps == old(self)@.comps,
            old(self)@.comps.len() > 0 ==> final(self)@.comps == old(self)@.comps.drop_last(),
    {
        let _ = self.components.pop();
        proof {
            if old(self)@.comps.len() > 0 {
                assert(self@.comps =~= old(self)@.comps.drop_last());
            } else {
                assert(self@.comps =~= old(self)@.comps);
            }
        }
    }

    /// The dotted path of the current components.
    pub fn current(&self) -> (r: String)
        ensures
            r@ == spec_join(comp_names(self@.comps)),
    {
        self.internal_current_to(None)
    }

    /// The dotted path of the current components with one more segment below.
    pub fn current_to(&self, field: &str) -> (r: String)
        ensures
            r@ == spec_join(comp_names(self@.comps).push(field@)),
    {
        self.internal_current_to(Some(field))
    }

    /// The dotted path of the current components, extended by `field` when
    /// one is given.
    pub fn internal_current_to(&self, field: Option<&str>) -> (r: String)
        ensures
            r@ == spec_join(
                match field {
                    Option::Some(f) => comp_names(self@.comps).push(f@),
                    Option::None => comp_names(self@.comps),
                },
            ),
    {
        let ghost names = comp_names(self@.comps);
        let mut s = String::new();
        let mut i: usize = 0;
        while i < self.components.len()
            invariant
                i <= self.components.len(),
                names == comp_names(self@.comps),
                names.len() == self.components.len(),
                s@ == spec_join(names.take(i as int)),
            decreases self.components.len() - i,
        {
            proof {
                assert(names.take(i as int + 1).drop_last() =~= names.take(i as int));
                assert(names.take(i as int + 1).last() == self.components@[i as int]@.name);
            }
            if !s.as_str().is_empty() {
                s.append(".");
                proof {
                    reveal_strlit(".");
                }
            }
            s.append(self.components[i].value.as_str());
            proof {
                assert(s@ =~= spec_join(names.take(i as int + 1)));
            }
            i += 1;
        }
        proof {
            assert(names.take(names.len() as int) =~= names);
        }
        match field {
            Option::Some(f) => {
                proof {
                    assert(names.push(f@).drop_last() =~= names);
                    assert(names.push(f@).last() == f@);
                }
                if !s.as_str().is_empty() {
                    s.append(".");
                    proof {
                        reveal_strlit(".");
                    }
                }
                s.append(f);
                proof {
                    assert(s@ =~= spec_join(names.push(f@)));
                }
                s
            },
            Option::None => s,
        }
    }

    /// Hands out the next ordinal label, `_n`, counting within the innermost
    /// component, or at the root when the path is empty. Only components that
    /// allow child fields hand out labels.
    pub fn anonymous(&mut self) -> (r: String)
        requires
            old(self)@.comps.len() > 0 ==> {
                &&& old(self)@.comps.last().allow
                &&& old(self)@.comps.last().anon < u64::MAX
            },
            old(self)@.comps.len() == 0 ==> old(self)@.anon < u64::MAX,
        ensures
            old(self)@.comps.len() > 0 ==> {
                &&& r@ == seq!['_'] + spec_dec(old(self)@.comps.last().anon)
                &&& final(self)@.anon == old(self)@.anon
                &&& final(self)@.comps == old(self)@.comps.update(
                    old(self)@.comps.len() - 1,
                    (CompM {
                        anon: old(self)@.comps.last().anon + 1,
                        allow: old(self)@.comps.last().allow,
                        name: old(self)@.comps.last().name,
                    }),
                )
            },
            old(self)@.comps.len() == 0 ==> {
                &&& r@ == seq!['_'] + spec_dec(old(self)@.anon)
                &&& final(self)@.anon == old(self)@.anon + 1
                &&& final(self)@.comps == old(self)@.comps
            },
    {
        let n: u64;
        let len = self.components.len();
        if len > 0 {
            n = self.components[len - 1].anonymous;
            self.components[len - 1].anonymous = n + 1;
        } else {
            n = self.anonymous;
            self.anonymous = n + 1;
        }
        let mut s = String::from_str("_");
        let d = u64_to_string(n);
        s.append(d.as_str());
        proof {
            reveal_strlit("_");
            assert(s@ =~= seq!['_'] + spec_dec(n as nat));
            if old(self)@.comps.len() > 0 {
                assert(self@.comps =~= old(self)@.comps.update(
                    old(self)@.comps.len() - 1,
                    CompM {
                        anon: old(self)@.comps.last().anon + 1,
                        allow: old(self)@.comps.last().allow,
                        name: old(self)@.comps.last().name,
                    },
                ));
            } else {
                assert(self@.comps =~= old(self)@.comps);
            }
        }
        s
    }
}

} // verus!
