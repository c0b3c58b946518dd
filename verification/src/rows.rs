//! Composite expansion: child rows, the delete-decorator, and the
//! per-frame retention pass.
//!
//! A list or map node exposes one row per child; the host renders each
//! row through a [`DeleteMe`] wrapper and collects the removal flags,
//! and one retention pass at the end of the frame drops every child
//! marked for removal, preserving the order of the survivors.

use vstd::prelude::*;
use vstd::string::StringExecFns;
use crate::desc::{Desc, DescV};
use crate::value::{Value, ValueV, value_view, entries_view, keys_distinct, retained, retain_vec};
use crate::ident::{Id, TAG_LIST};
use crate::store::Store;
use crate::engine::ValueProbe;
use crate::text::{dec_seq, u64_to_dec};

verus! {

/// One child row of a composite node: its display label, the schema
/// its child probe runs under, and the child's identity.
pub struct Row {
    pub label: String,
    pub desc: Desc,
    pub id: Id,
}

/// The display label of a list element: its index in brackets.
pub open spec fn index_label(i: nat) -> Seq<char> {
    "["@ + dec_seq(i) + "]"@
}

fn make_index_label(i: usize) -> (r: String)
    ensures
        r@ == index_label(i as nat),
{
    let mut r = "[".to_owned();
    let digits = u64_to_dec(i as u64);
    r.append(digits.as_str());
    r.append("]");
    proof {
        assert(r@ =~= index_label(i as nat));
    }
    r
}

/// The two stores agree everywhere.
pub open spec fn store_same(a: Store, b: Store) -> bool {
    &&& forall|k: Seq<u64>| b.desc_at(k) == a.desc_at(k)
    &&& forall|k: Seq<u64>| b.key_at(k) == a.key_at(k)
}

impl ValueProbe {
    /// Expose this node's children for the host's composite loop, one
    /// row per element, labeled by index or key.  A leaf has no rows;
    /// a node whose schema is being inferred exposes one synthetic row
    /// editing the value under the inferred schema.  A container whose
    /// element schema is inferred writes that schema back to the store
    /// here, as the last step of its frame.
    pub fn iterate_inner(&self, value: &Value, store: &mut Store) -> (rows: Vec<Row>)
        requires
            old(store).wf(),
        ensures
            final(store).wf(),
            self.desc is None ==> ({
                &&& rows@.len() == 1
                &&& rows@[0].label@ == "value"@
                &&& rows@[0].desc@ == self.mydesc@
                &&& rows@[0].id@ == self.id_source@
                &&& store_same(*old(store), *final(store))
            }),
            self.desc matches Option::Some(Desc::Bool) ==> rows@.len() == 0 && store_same(
                *old(store),
                *final(store),
            ),
            self.desc matches Option::Some(Desc::Int { .. }) ==> rows@.len() == 0 && store_same(
                *old(store),
                *final(store),
            ),
            self.desc matches Option::Some(Desc::Float { .. }) ==> rows@.len() == 0 && store_same(
                *old(store),
                *final(store),
            ),
            self.desc matches Option::Some(Desc::String { .. }) ==> rows@.len() == 0 && store_same(
                *old(store),
                *final(store),
            ),
            self.desc matches Option::Some(Desc::List { elem_desc }) ==> ({
                let ed = match elem_desc {
                    Option::Some(b) => b@,
                    Option::None => self.mydesc@,
                };
                &&& (elem_desc is Some ==> store_same(*old(store), *final(store)))
                &&& (elem_desc is None ==> ({
                    &&& final(store).desc_at(self.myid@) == Option::Some(self.mydesc@)
                    &&& forall|k: Seq<u64>|
                        k != self.myid@ ==> final(store).desc_at(k) == old(store).desc_at(k)
                    &&& forall|k: Seq<u64>| final(store).key_at(k) == old(store).key_at(k)
                }))
                &&& match value@ {
                    ValueV::List(elems) => {
                        &&& rows@.len() == elems.len()
                        &&& forall|i: int|
                            0 <= i < elems.len() ==> {
                                &&& (#[trigger] rows@[i]).label@ == index_label(i as nat)
                                &&& rows@[i].desc@ == ed
                                &&& rows@[i].id@ == self.id_source@.push(TAG_LIST).push(i as u64)
                            }
                    },
                    _ => rows@.len() == 0,
                }
            }),
            self.desc matches Option::Some(Desc::Dict { value_desc }) ==> ({
                let ed = match value_desc {
                    Option::Some(b) => b@,
                    Option::None => self.mydesc@,
                };
                &&& (value_desc is Some ==> store_same(*old(store), *final(store)))
                &&& (value_desc is None ==> ({
                    &&& final(store).desc_at(self.myid@) == Option::Some(self.mydesc@)
                    &&& forall|k: Seq<u64>|
                        k != self.myid@ ==> final(store).desc_at(k) == old(store).desc_at(k)
                    &&& forall|k: Seq<u64>| final(store).key_at(k) == old(store).key_at(k)
                }))
                &&& match value@ {
                    ValueV::Dict(entries) => {
                        &&& rows@.len() == entries.len()
                        &&& forall|i: int|
                            0 <= i < entries.len() ==> {
                                &&& (#[trigger] rows@[i]).label@ == entries[i].0
                                &&& rows@[i].desc@ == ed
                                &&& rows@[i].id@ == self.id_source@.push(TAG_LIST).push(i as u64)
                            }
                    },
                    _ => rows@.len() == 0,
                }
            }),
    {
        match &self.desc {
            Option::None => {
                let mut rows: Vec<Row> = Vec::new();
                rows.push(
                    Row {
                        label: "value".to_owned(),
                        desc: self.mydesc.clone(),
                        id: self.id_source.clone_id(),
                    },
                );
                rows
            },
            Option::Some(Desc::Bool) => Vec::new(),
            Option::Some(Desc::Int { .. }) => Vec::new(),
            Option::Some(Desc::Float { .. }) => Vec::new(),
            Option::Some(Desc::String { .. }) => Vec::new(),
            Option::Some(Desc::List { elem_desc }) => {
                let ed: &Desc = match elem_desc {
                    Option::Some(b) => &**b,
                    Option::None => {
                        store.insert_desc(&self.myid, self.mydesc.clone());
                        &self.mydesc
                    },
                };
                match value {
                    Value::List(elems) => {
                        let base = self.id_source.with(TAG_LIST);
                        let n = elems.len();
                        let mut rows: Vec<Row> = Vec::new();
                        let mut i: usize = 0;
                        while i < n
                            invariant
                                0 <= i <= n,
                                rows@.len() == i,
                                base@ == self.id_source@.push(TAG_LIST),
                                forall|j: int|
                                    0 <= j < i ==> {
                                        &&& (#[trigger] rows@[j]).label@ == index_label(j as nat)
                                        &&& rows@[j].desc@ == ed@
                                        &&& rows@[j].id@ == self.id_source@.push(TAG_LIST).push(
                                            j as u64,
                                        )
                                    },
                            decreases n - i,
                        {
                            rows.push(
                                Row {
                                    label: make_index_label(i),
                                    desc: ed.clone(),
                                    id: base.with(i as u64),
                                },
                            );
                            i += 1;
                        }
                        rows
                    },
                    _ => Vec::new(),
                }
            },
            Option::Some(Desc::Dict { value_desc }) => {
                let ed: &Desc = match value_desc {
                    Option::Some(b) => &**b,
                    Option::None => {
                        store.insert_desc(&self.myid, self.mydesc.clone());
                        &self.mydesc
                    },
                };
                match value {
                    Value::Dict(entries) => {
                        let base = self.id_source.with(TAG_LIST);
                        let n = entries.len();
                        let mut rows: Vec<Row> = Vec::new();
                        let mut i: usize = 0;
                        while i < n
                            invariant
                                0 <= i <= n,
                                n == entries@.len(),
                                rows@.len() == i,
                                base@ == self.id_source@.push(TAG_LIST),
                                forall|j: int|
                                    0 <= j < i ==> {
                                        &&& (#[trigger] rows@[j]).label@ == entries@[j].0@
                                        &&& rows@[j].desc@ == ed@
                                        &&& rows@[j].id@ == self.id_source@.push(TAG_LIST).push(
                                            j as u64,
                                        )
                                    },
                            decreases n - i,
                        {
                            rows.push(
                                Row {
                                    label: entries[i].0.clone(),
                                    desc: ed.clone(),
                                    id: base.with(i as u64),
                                },
                            );
                            i += 1;
                        }
                        proof {
                            assert(value@ matches ValueV::Dict(e) ==> forall|j: int|
                                0 <= j < e.len() ==> (#[trigger] e[j]).0 == entries@[j].0@);
                        }
                        rows
                    },
                    _ => Vec::new(),
                }
            },
        }
    }
}

/// Modifier adding a remove affordance to an item row.
///
/// The flag lives for one frame: the container loop reads it back
/// right after the row rendered, to decide retention.
pub struct DeleteMe<T> {
    pub value: T,
    pub delete: bool,
}

impl<T> DeleteMe<T> {
    /// Wrap a child probe, not yet marked for removal.
    pub fn new(value: T) -> (r: DeleteMe<T>)
        ensures
            r.value == value,
            !r.delete,
    {
        DeleteMe { value, delete: false }
    }

    /// The row's own frame: a click on the remove affordance marks the
    /// row, and a mark is never taken back within the frame.
    pub fn probe_row(&mut self, remove_clicked: bool)
        ensures
            final(self).value == old(self).value,
            final(self).delete == (old(self).delete || remove_clicked),
    {
        if remove_clicked {
            self.delete = true;
        }
    }

    /// Whether the wrapped child may still expand: a row already
    /// condemned for removal is not rendered further, so a value about
    /// to be discarded is never mutated.
    pub fn expands(&self) -> (r: bool)
        ensures
            r == !self.delete,
    {
        !self.delete
    }
}

/// The views of a list's backing elements.
pub open spec fn list_views(s: Seq<Value>) -> Seq<ValueV> {
    Seq::new(s.len(), |i: int| value_view(s[i]))
}

proof fn lemma_list_views_retained(s: Seq<Value>, keep: Seq<bool>)
    requires
        s.len() == keep.len(),
    ensures
        list_views(retained(s, keep)) =~= retained(list_views(s), keep),
    decreases s.len(),
{
    if s.len() == 0 {
        assert(retained(list_views(s), keep) =~= Seq::<ValueV>::empty());
    } else {
        lemma_list_views_retained(s.drop_last(), keep.drop_last());
        assert(list_views(s).drop_last() =~= list_views(s.drop_last()));
        assert(list_views(s).len() == s.len());
        assert(retained(list_views(s), keep) == if keep.last() {
            retained(list_views(s).drop_last(), keep.drop_last()).push(list_views(s).last())
        } else {
            retained(list_views(s).drop_last(), keep.drop_last())
        });
        if keep.last() {
            assert(list_views(retained(s, keep)) =~= list_views(
                retained(s.drop_last(), keep.drop_last()),
            ).push(value_view(s.last())));
        }
    }
}

proof fn lemma_entries_views_retained(s: Seq<(String, Value)>, keep: Seq<bool>)
    requires
        s.len() == keep.len(),
    ensures
        entries_view(retained(s, keep)) =~= retained(entries_view(s), keep),
    decreases s.len(),
{
    if s.len() == 0 {
        assert(retained(entries_view(s), keep) =~= Seq::<(Seq<char>, ValueV)>::empty());
    } else {
        lemma_entries_views_retained(s.drop_last(), keep.drop_last());
        assert(entries_view(s).drop_last() =~= entries_view(s.drop_last()));
        assert(entries_view(s).len() == s.len());
        assert(retained(entries_view(s), keep) == if keep.last() {
            retained(entries_view(s).drop_last(), keep.drop_last()).push(entries_view(s).last())
        } else {
            retained(entries_view(s).drop_last(), keep.drop_last())
        });
        if keep.last() {
            assert(entries_view(retained(s, keep)) =~= entries_view(
                retained(s.drop_last(), keep.drop_last()),
            ).push((s.last().0@, value_view(s.last().1))));
        }
    }
}

proof fn lemma_retained_member<T>(s: Seq<T>, keep: Seq<bool>, k: int)
    requires
        s.len() == keep.len(),
        0 <= k < retained(s, keep).len(),
    ensures
        exists|i: int| 0 <= i < s.len() && s[i] == retained(s, keep)[k],
    decreases s.len(),
{
    let r = retained(s, keep);
    let rest = retained(s.drop_last(), keep.drop_last());
    if keep.last() && k == rest.len() {
        assert(s[s.len() - 1] == r[k]);
    } else {
        lemma_retained_member(s.drop_last(), keep.drop_last(), k);
        let i = choose|i: int|
            0 <= i < s.drop_last().len() && s.drop_last()[i] == retained(
                s.drop_last(),
                keep.drop_last(),
            )[k];
        assert(s[i] == r[k]);
    }
}

/// Retention never breaks a map's key distinctness: the surviving
/// entries are entries of the original map.
pub proof fn lemma_retained_keys_distinct(e: Seq<(Seq<char>, ValueV)>, keep: Seq<bool>)
    requires
        keys_distinct(e),
        e.len() == keep.len(),
    ensures
        keys_distinct(retained(e, keep)),
    decreases e.len(),
{
    if e.len() == 0 {
    } else {
        lemma_retained_keys_distinct(e.drop_last(), keep.drop_last());
        assert forall|p: int, q: int|
            0 <= p < q < e.drop_last().len() implies (#[trigger] e.drop_last()[p]).0 != (
        #[trigger] e.drop_last()[q]).0 by {
            assert(e[p].0 != e[q].0);
        }
        let r = retained(e, keep);
        let rest = retained(e.drop_last(), keep.drop_last());
        if keep.last() {
            assert forall|p: int, q: int| 0 <= p < q < r.len() implies (#[trigger] r[p]).0 != (
            #[trigger] r[q]).0 by {
                if q < rest.len() {
                    assert(rest[p].0 != rest[q].0);
                } else {
                    lemma_retained_member(e.drop_last(), keep.drop_last(), p);
                    let i = choose|i: int|
                        0 <= i < e.drop_last().len() && e.drop_last()[i] == rest[p];
                    assert(e[i].0 != e[e.len() - 1].0);
                }
            }
        }
    }
}

/// The end-of-frame retention pass over a container: element `i`
/// survives exactly when `keep[i]` is true, the survivors keep their
/// relative order, and a map's keys stay distinct.  Any other value is
/// left untouched.
pub fn apply_removals(value: &mut Value, keep: &Vec<bool>)
    requires
        old(value)@ matches ValueV::List(l) ==> keep@.len() == l.len(),
        old(value)@ matches ValueV::Dict(e) ==> keep@.len() == e.len() && keys_distinct(e),
    ensures
        old(value)@ matches ValueV::List(l) ==> final(value)@ == ValueV::List(
            retained(l, keep@),
        ),
        old(value)@ matches ValueV::Dict(e) ==> final(value)@ == ValueV::Dict(
            retained(e, keep@),
        ) && keys_distinct(retained(e, keep@)),
        !(old(value)@ is List || old(value)@ is Dict) ==> *final(value) == *old(value),
{
    match value {
        Value::List(elems) => {
            let ghost before = elems@;
            retain_vec(elems, keep);
            proof {
                assert(old(value)@->List_0 =~= list_views(before));
                lemma_list_views_retained(before, keep@);
                assert(value@->List_0 =~= list_views(elems@));
                assert(value@->List_0 =~= retained(old(value)@->List_0, keep@));
            }
        },
        Value::Dict(entries) => {
            let ghost before = entries@;
            retain_vec(entries, keep);
            proof {
                assert(old(value)@->Dict_0 =~= entries_view(before));
                lemma_entries_views_retained(before, keep@);
                assert(value@->Dict_0 =~= entries_view(entries@));
                assert(value@->Dict_0 =~= retained(old(value)@->Dict_0, keep@));
                lemma_retained_keys_distinct(old(value)@->Dict_0, keep@);
            }
        },
        _ => {},
    }
}

} // verus!
