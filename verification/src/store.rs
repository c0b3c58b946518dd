//! The identity-keyed transient store.
//!
//! State that must survive across frames but is not part of the value
//! tree — an inferred sub-schema, the pending new-key text of a map —
//! lives here, addressed by node identity.  The host owns one store
//! per editing session and passes it to the engine every frame.

use vstd::prelude::*;
use crate::ident::Id;
use crate::desc::{Desc, DescV};

verus! {

/// What an association sequence holds at a key, if anything.  The keys
/// are meant to be pairwise distinct, so which match is picked does not
/// matter.
pub open spec fn assoc_at<V>(s: Seq<(Seq<u64>, V)>, id: Seq<u64>) -> Option<V> {
    if exists|i: int| 0 <= i < s.len() && (#[trigger] s[i]).0 == id {
        let i = choose|i: int| 0 <= i < s.len() && (#[trigger] s[i]).0 == id;
        Option::Some(s[i].1)
    } else {
        Option::None
    }
}

/// The keys of an association sequence are pairwise distinct.
pub open spec fn assoc_wf<V>(s: Seq<(Seq<u64>, V)>) -> bool {
    forall|p: int, q: int| 0 <= p < q < s.len() ==> (#[trigger] s[p]).0 != (#[trigger] s[q]).0
}

proof fn lemma_assoc_at<V>(s: Seq<(Seq<u64>, V)>, i: int)
    requires
        assoc_wf(s),
        0 <= i < s.len(),
    ensures
        assoc_at(s, s[i].0) == Option::Some(s[i].1),
{
    let id = s[i].0;
    let w = choose|k: int| 0 <= k < s.len() && (#[trigger] s[k]).0 == id;
    if w < i {
        assert(s[w].0 != s[i].0);
    } else if w > i {
        assert(s[i].0 != s[w].0);
    }
}

proof fn lemma_assoc_update<V>(olds: Seq<(Seq<u64>, V)>, news: Seq<(Seq<u64>, V)>, i: int)
    requires
        assoc_wf(olds),
        0 <= i < olds.len(),
        news.len() == olds.len(),
        forall|j: int| 0 <= j < olds.len() && j != i ==> #[trigger] news[j] == olds[j],
        news[i].0 == olds[i].0,
    ensures
        assoc_wf(news),
        assoc_at(news, news[i].0) == Option::Some(news[i].1),
        forall|k: Seq<u64>| k != news[i].0 ==> assoc_at(news, k) == assoc_at(olds, k),
{
    assert forall|p: int, q: int|
        0 <= p < q < news.len() implies (#[trigger] news[p]).0 != (#[trigger] news[q]).0 by {
        assert(olds[p].0 != olds[q].0);
        assert(news[p].0 == olds[p].0);
        assert(news[q].0 == olds[q].0);
    }
    lemma_assoc_at(news, i);
    assert forall|k: Seq<u64>| k != news[i].0 implies assoc_at(news, k) == assoc_at(olds, k) by {
        if exists|j: int| 0 <= j < olds.len() && (#[trigger] olds[j]).0 == k {
            let j = choose|j: int| 0 <= j < olds.len() && (#[trigger] olds[j]).0 == k;
            lemma_assoc_at(olds, j);
            assert(news[j] == olds[j]);
            lemma_assoc_at(news, j);
        } else {
            assert(forall|j: int| 0 <= j < news.len() ==> (#[trigger] news[j]).0 != k);
        }
    }
}

proof fn lemma_assoc_push<V>(olds: Seq<(Seq<u64>, V)>, news: Seq<(Seq<u64>, V)>, id: Seq<u64>)
    requires
        assoc_wf(olds),
        forall|j: int| 0 <= j < olds.len() ==> (#[trigger] olds[j]).0 != id,
        news.len() == olds.len() + 1,
        forall|j: int| 0 <= j < olds.len() ==> #[trigger] news[j] == olds[j],
        news[olds.len() as int].0 == id,
    ensures
        assoc_wf(news),
        assoc_at(news, id) == Option::Some(news[olds.len() as int].1),
        forall|k: Seq<u64>| k != id ==> assoc_at(news, k) == assoc_at(olds, k),
{
    assert forall|p: int, q: int|
        0 <= p < q < news.len() implies (#[trigger] news[p]).0 != (#[trigger] news[q]).0 by {
        if q < olds.len() as int {
            assert(olds[p].0 != olds[q].0);
        } else {
            assert(news[p] == olds[p]);
            assert(olds[p].0 != id);
        }
    }
    lemma_assoc_at(news, olds.len() as int);
    assert forall|k: Seq<u64>| k != id implies assoc_at(news, k) == assoc_at(olds, k) by {
        if exists|j: int| 0 <= j < olds.len() && (#[trigger] olds[j]).0 == k {
            let j = choose|j: int| 0 <= j < olds.len() && (#[trigger] olds[j]).0 == k;
            lemma_assoc_at(olds, j);
            assert(news[j] == olds[j]);
            lemma_assoc_at(news, j);
        } else {
            assert(forall|j: int| 0 <= j < news.len() ==> (#[trigger] news[j]).0 != k);
        }
    }
}

/// Transient per-node state, keyed by identity.
///
/// The two namespaces are separate: one identity may hold both an
/// inferred schema and a pending key, as a map node with an absent
/// value schema does.
pub struct Store {
    descs: Vec<(Id, Desc)>,
    keys: Vec<(Id, String)>,
}

impl Store {
    /// The schema namespace, as an association sequence.
    pub closed spec fn desc_entries(self) -> Seq<(Seq<u64>, DescV)> {
        Seq::new(self.descs@.len(), |i: int| (self.descs@[i].0@, self.descs@[i].1@))
    }

    /// The pending-key namespace, as an association sequence.
    pub closed spec fn key_entries(self) -> Seq<(Seq<u64>, Seq<char>)> {
        Seq::new(self.keys@.len(), |i: int| (self.keys@[i].0@, self.keys@[i].1@))
    }

    /// No identity appears twice in either namespace.
    pub open spec fn wf(self) -> bool {
        assoc_wf(self.desc_entries()) && assoc_wf(self.key_entries())
    }

    /// The inferred schema stored at an identity, if any.
    pub open spec fn desc_at(self, id: Seq<u64>) -> Option<DescV> {
        assoc_at(self.desc_entries(), id)
    }

    /// The pending new-key text stored at an identity, if any.
    pub open spec fn key_at(self, id: Seq<u64>) -> Option<Seq<char>> {
        assoc_at(self.key_entries(), id)
    }

    /// An empty store, as a session starts.
    pub fn new() -> (r: Store)
        ensures
            r.wf(),
            forall|id: Seq<u64>| r.desc_at(id) == Option::<DescV>::None,
            forall|id: Seq<u64>| r.key_at(id) == Option::<Seq<char>>::None,
    {
        Store { descs: Vec::new(), keys: Vec::new() }
    }

    /// Fetch the inferred schema stored at `id`.
    pub fn get_desc(&self, id: &Id) -> (r: Option<Desc>)
        requires
            self.wf(),
        ensures
            match r {
                Option::Some(d) => self.desc_at(id@) == Option::Some(d@),
                Option::None => self.desc_at(id@) == Option::<DescV>::None,
            },
    {
        let n = self.descs.len();
        let mut i: usize = 0;
        while i < n
            invariant
                self.wf(),
                n == self.descs@.len(),
                0 <= i <= n,
                forall|j: int| 0 <= j < i ==> (#[trigger] self.desc_entries()[j]).0 != id@,
            decreases n - i,
        {
            if self.descs[i].0.same(id) {
                proof {
                    assert(self.desc_entries()[i as int].0 == id@);
                    lemma_assoc_at(self.desc_entries(), i as int);
                }
                return Option::Some(self.descs[i].1.clone());
            }
            proof {
                assert(self.desc_entries()[i as int].0 != id@);
            }
            i += 1;
        }
        proof {
            assert(forall|j: int|
                0 <= j < self.desc_entries().len() ==> (#[trigger] self.desc_entries()[j]).0
                    != id@);
        }
        Option::None
    }

    /// Store an inferred schema at `id`, overwriting what was there.
    pub fn insert_desc(&mut self, id: &Id, d: Desc)
        requires
            old(self).wf(),
        ensures
            final(self).wf(),
            final(self).desc_at(id@) == Option::Some(d@),
            forall|k: Seq<u64>| k != id@ ==> final(self).desc_at(k) == old(self).desc_at(k),
            forall|k: Seq<u64>| final(self).key_at(k) == old(self).key_at(k),
    {
        let n = self.descs.len();
        let mut i: usize = 0;
        while i < n
            invariant
                self.wf(),
                self == old(self),
                n == self.descs@.len(),
                0 <= i <= n,
                forall|j: int| 0 <= j < i ==> (#[trigger] self.desc_entries()[j]).0 != id@,
            decreases n - i,
        {
            if self.descs[i].0.same(id) {
                proof {
                    assert(self.desc_entries()[i as int].0 == id@);
                }
                self.descs[i] = (id.clone_id(), d);
                proof {
                    assert(self.key_entries() =~= old(self).key_entries());
                    assert(forall|j: int|
                        0 <= j < old(self).desc_entries().len() && j != i ==> #[trigger] self
                            .desc_entries()[j] == old(self).desc_entries()[j]);
                    assert(self.desc_entries()[i as int] == (id@, d@));
                    lemma_assoc_update(old(self).desc_entries(), self.desc_entries(), i as int);
                }
                return;
            }
            proof {
                assert(self.desc_entries()[i as int].0 != id@);
            }
            i += 1;
        }
        self.descs.push((id.clone_id(), d));
        proof {
            assert(self.key_entries() =~= old(self).key_entries());
            assert(forall|j: int|
                0 <= j < old(self).desc_entries().len() ==> #[trigger] self.desc_entries()[j]
                    == old(self).desc_entries()[j]);
            assert(self.desc_entries()[old(self).descs@.len() as int] == (id@, d@));
            lemma_assoc_push(old(self).desc_entries(), self.desc_entries(), id@);
        }
    }

    /// Fetch the pending new-key text stored at `id`.
    pub fn get_key(&self, id: &Id) -> (r: Option<String>)
        requires
            self.wf(),
        ensures
            match r {
                Option::Some(s) => self.key_at(id@) == Option::Some(s@),
                Option::None => self.key_at(id@) == Option::<Seq<char>>::None,
            },
    {
        let n = self.keys.len();
        let mut i: usize = 0;
        while i < n
            invariant
                self.wf(),
                n == self.keys@.len(),
                0 <= i <= n,
                forall|j: int| 0 <= j < i ==> (#[trigger] self.key_entries()[j]).0 != id@,
            decreases n - i,
        {
            if self.keys[i].0.same(id) {
                proof {
                    assert(self.key_entries()[i as int].0 == id@);
                    lemma_assoc_at(self.key_entries(), i as int);
                }
                return Option::Some(self.keys[i].1.clone());
            }
            proof {
                assert(self.key_entries()[i as int].0 != id@);
            }
            i += 1;
        }
        proof {
            assert(forall|j: int|
                0 <= j < self.key_entries().len() ==> (#[trigger] self.key_entries()[j]).0 != id@);
        }
        Option::None
    }

    /// Store the pending new-key text at `id`, overwriting what was there.
    pub fn insert_key(&mut self, id: &Id, s: String)
        requires
            old(self).wf(),
        ensures
            final(self).wf(),
            final(self).key_at(id@) == Option::Some(s@),
            forall|k: Seq<u64>| k != id@ ==> final(self).key_at(k) == old(self).key_at(k),
            forall|k: Seq<u64>| final(self).desc_at(k) == old(self).desc_at(k),
    {
        let n = self.keys.len();
        let mut i: usize = 0;
        while i < n
            invariant
                self.wf(),
                self == old(self),
                n == self.keys@.len(),
                0 <= i <= n,
                forall|j: int| 0 <= j < i ==> (#[trigger] self.key_entries()[j]).0 != id@,
            decreases n - i,
        {
            if self.keys[i].0.same(id) {
                proof {
                    assert(self.key_entries()[i as int].0 == id@);
                }
                self.keys[i] = (id.clone_id(), s);
                proof {
                    assert(self.desc_entries() =~= old(self).desc_entries());
                    assert(forall|j: int|
                        0 <= j < old(self).key_entries().len() && j != i ==> #[trigger] self
                            .key_entries()[j] == old(self).key_entries()[j]);
                    assert(self.key_entries()[i as int] == (id@, s@));
                    lemma_assoc_update(old(self).key_entries(), self.key_entries(), i as int);
                }
                return;
            }
            proof {
                assert(self.key_entries()[i as int].0 != id@);
            }
            i += 1;
        }
        self.keys.push((id.clone_id(), s));
        proof {
            assert(self.desc_entries() =~= old(self).desc_entries());
            assert(forall|j: int|
                0 <= j < old(self).key_entries().len() ==> #[trigger] self.key_entries()[j]
                    == old(self).key_entries()[j]);
            assert(self.key_entries()[old(self).keys@.len() as int] == (id@, s@));
            lemma_assoc_push(old(self).key_entries(), self.key_entries(), id@);
        }
    }
}

} // verus!
