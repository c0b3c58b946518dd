//! The runtime value model: a closed tagged union of the editable shapes.

use vstd::prelude::*;

verus! {

broadcast use {vstd::std_specs::vec::axiom_vec_decreases_to_view, vstd::seq::axiom_seq_index_decreases};

/// A runtime value being edited.
///
/// A float is carried as its IEEE-754 bit pattern; all arithmetic on
/// floats is the host's business, the engine only stores and moves the
/// bits.  A map is an insertion-ordered sequence of entries with
/// pairwise-distinct keys, so that each frame iterates it in one
/// deterministic order.
pub enum Value {
    Bool(bool),
    Int(i64),
    Float(u64),
    String(String),
    List(Vec<Value>),
    Dict(Vec<(String, Value)>),
}

/// The mathematical shape of a [`Value`].
pub enum ValueV {
    Bool(bool),
    Int(i64),
    Float(u64),
    String(Seq<char>),
    List(Seq<ValueV>),
    Dict(Seq<(Seq<char>, ValueV)>),
}

/// The mathematical shape of a value, recursively.
pub open spec fn value_view(v: Value) -> ValueV
    decreases v,
{
    match v {
        Value::Bool(b) => ValueV::Bool(b),
        Value::Int(i) => ValueV::Int(i),
        Value::Float(bits) => ValueV::Float(bits),
        Value::String(s) => ValueV::String(s@),
        Value::List(l) => ValueV::List(
            Seq::new(
                l@.len(),
                |i: int|
                    if 0 <= i < l@.len() {
                        value_view(l@[i])
                    } else {
                        ValueV::Bool(false)
                    },
            ),
        ),
        Value::Dict(m) => ValueV::Dict(
            Seq::new(
                m@.len(),
                |i: int|
                    if 0 <= i < m@.len() {
                        (m@[i].0@, value_view(m@[i].1))
                    } else {
                        (Seq::empty(), ValueV::Bool(false))
                    },
            ),
        ),
    }
}

impl View for Value {
    type V = ValueV;

    open spec fn view(&self) -> ValueV {
        value_view(*self)
    }
}

/// The mathematical shape of a map's backing entries.
pub open spec fn entries_view(s: Seq<(String, Value)>) -> Seq<(Seq<char>, ValueV)> {
    Seq::new(s.len(), |i: int| (s[i].0@, value_view(s[i].1)))
}

/// A map is well formed when no two entries share a key.
pub open spec fn keys_distinct(entries: Seq<(Seq<char>, ValueV)>) -> bool {
    forall|i: int, j: int| #![trigger entries[i], entries[j]]
        0 <= i < j < entries.len() ==> entries[i].0 != entries[j].0
}

impl ValueV {
    /// The kind label of a value shape.
    pub open spec fn kind(self) -> Seq<char> {
        match self {
            ValueV::Bool(_) => "bool"@,
            ValueV::Int(_) => "int"@,
            ValueV::Float(_) => "float"@,
            ValueV::String(_) => "string"@,
            ValueV::List(_) => "list"@,
            ValueV::Dict(_) => "map"@,
        }
    }
}

impl Value {
    /// The kind label of this value, for diagnostic display.
    pub fn kind(&self) -> (r: &'static str)
        ensures
            r@ == self@.kind(),
    {
        match self {
            Value::Bool(_) => "bool",
            Value::Int(_) => "int",
            Value::Float(_) => "float",
            Value::String(_) => "string",
            Value::List(_) => "list",
            Value::Dict(_) => "map",
        }
    }
}

/// How one map insertion relates the entries before and after: an
/// already-present key has its value overwritten in place, keeping the
/// entry's position; a fresh key is appended; either way the keys stay
/// pairwise distinct and every other entry is untouched.
pub open spec fn dict_insert_post(
    olde: Seq<(Seq<char>, ValueV)>,
    newe: Seq<(Seq<char>, ValueV)>,
    k: Seq<char>,
    v: ValueV,
) -> bool {
    &&& keys_distinct(newe)
    &&& if exists|i: int| 0 <= i < olde.len() && (#[trigger] olde[i]).0 == k {
        &&& newe.len() == olde.len()
        &&& forall|i: int|
            0 <= i < olde.len() ==> #[trigger] newe[i] == if olde[i].0 == k {
                (k, v)
            } else {
                olde[i]
            }
    } else {
        newe == olde.push((k, v))
    }
}

/// Insert a key into a map's backing entries.
pub fn map_insert(entries: &mut Vec<(String, Value)>, key: String, val: Value)
    requires
        keys_distinct(entries_view(old(entries)@)),
    ensures
        dict_insert_post(
            entries_view(old(entries)@),
            entries_view(final(entries)@),
            key@,
            value_view(val),
        ),
{
    let n = entries.len();
    let mut i: usize = 0;
    while i < n
        invariant
            n == entries@.len(),
            entries@ == old(entries)@,
            keys_distinct(entries_view(old(entries)@)),
            0 <= i <= n,
            forall|j: int| 0 <= j < i ==> #[trigger] entries_view(entries@)[j].0 != key@,
        decreases n - i,
    {
        if entries[i].0 == key {
            proof {
                assert(entries_view(entries@)[i as int].0 == key@);
            }
            entries[i] = (key, val);
            proof {
                let ov = entries_view(old(entries)@);
                let nv = entries_view(entries@);
                assert(ov[i as int].0 == key@);
                assert forall|j: int| 0 <= j < ov.len() && j != i as int implies nv[j] == ov[j] by {
                    assert(entries@[j] == old(entries)@[j]);
                }
                assert(nv[i as int] == (key@, value_view(val)));
                assert forall|j: int|
                    0 <= j < ov.len() && ov[j].0 == key@ implies j == i as int by {
                    if j > i as int {
                        assert(ov[i as int].0 != ov[j].0);
                    }
                }
                assert forall|j: int| 0 <= j < nv.len() implies nv[j].0 == ov[j].0 by {}
                assert forall|p: int, q: int|
                    0 <= p < q < nv.len() implies nv[p].0 != nv[q].0 by {
                    assert(ov[p].0 != ov[q].0);
                    assert(nv[p].0 == ov[p].0);
                    assert(nv[q].0 == ov[q].0);
                }
            }
            return;
        }
        i += 1;
    }
    entries.push((key, val));
    proof {
        let ov = entries_view(old(entries)@);
        let nv = entries_view(entries@);
        assert(nv =~= ov.push((key@, value_view(val))));
        assert forall|p: int, q: int| 0 <= p < q < nv.len() implies nv[p].0 != nv[q].0 by {
            if q == ov.len() as int {
                assert(ov[p].0 != key@);
            } else {
                assert(ov[p].0 != ov[q].0);
            }
        }
    }
}

/// Which elements a retention pass keeps: element `i` survives exactly
/// when `keep[i]` is true, and the survivors keep their relative order.
pub open spec fn retained<T>(s: Seq<T>, keep: Seq<bool>) -> Seq<T>
    decreases s.len(),
{
    if s.len() == 0 || keep.len() == 0 {
        Seq::empty()
    } else {
        let rest = retained(s.drop_last(), keep.drop_last());
        if keep.last() {
            rest.push(s.last())
        } else {
            rest
        }
    }
}

/// Drop every element whose retention flag is false, preserving the
/// order of the survivors.
pub fn retain_vec<T>(values: &mut Vec<T>, keep: &Vec<bool>)
    requires
        keep@.len() == old(values)@.len(),
    ensures
        final(values)@ == retained(old(values)@, keep@),
{
    let ghost orig = values@;
    let mut i: usize = 0;
    let mut j: usize = 0;
    while j < keep.len()
        invariant
            keep@.len() == orig.len(),
            0 <= j <= keep@.len(),
            i <= j,
            values@ =~= retained(orig.take(j as int), keep@.take(j as int)) + orig.skip(
                j as int,
            ),
            i == retained(orig.take(j as int), keep@.take(j as int)).len(),
        decreases keep@.len() - j,
    {
        proof {
            assert(orig.take(j + 1).drop_last() =~= orig.take(j as int));
            assert(keep@.take(j + 1).drop_last() =~= keep@.take(j as int));
            assert(orig.take(j + 1).last() == orig[j as int]);
        }
        if keep[j] {
            i += 1;
            proof {
                assert(values@ =~= retained(orig.take(j + 1), keep@.take(j + 1)) + orig.skip(
                    j + 1,
                ));
            }
        } else {
            values.remove(i);
            proof {
                assert(values@ =~= retained(orig.take(j + 1), keep@.take(j + 1)) + orig.skip(
                    j + 1,
                ));
            }
        }
        j += 1;
    }
    proof {
        assert(orig.take(orig.len() as int) =~= orig);
        assert(keep@.take(keep@.len() as int) =~= keep@);
        assert(values@ =~= retained(orig, keep@));
    }
}

} // verus!
