//! The daemon's table of running PTY processes, keyed by request id: each
//! request id occurs at most once, and putting a process under a request id
//! replaces the one it had.

use vstd::prelude::*;
use crate::lookup::{first_id, lemma_first_id_found, lemma_first_id_stable};
use crate::relay_tables::{keys_unique, lemma_key_at};
use crate::text::same_text;

verus! {

broadcast use vstd::seq_lib::group_seq_properties;

/// The views of a list of request ids.
pub open spec fn id_views(ids: Seq<String>) -> Seq<Seq<char>> {
    Seq::new(ids.len(), |i: int| ids[i]@)
}

/// The map that lists of ids and processes, side by side, stand for.
pub open spec fn table_map<P>(ids: Seq<Seq<char>>, procs: Seq<P>) -> Map<Seq<char>, P> {
    Map::new(|k: Seq<char>| ids.contains(k), |k: Seq<char>| procs[first_id(ids, k, ids.len() as int)->0])
}

/// Processes by request id.
pub struct ProcessTable<P> {
    ids: Vec<String>,
    procs: Vec<P>,
}

impl<P> View for ProcessTable<P> {
    type V = Map<Seq<char>, P>;

    closed spec fn view(&self) -> Map<Seq<char>, P> {
        table_map(id_views(self.ids@), self.procs@)
    }
}

proof fn lemma_lookup_at<P>(ids: Seq<Seq<char>>, procs: Seq<P>, j: int)
    requires
        keys_unique(ids),
        ids.len() == procs.len(),
        0 <= j < ids.len(),
    ensures
        table_map(ids, procs).dom().contains(ids[j]),
        table_map(ids, procs)[ids[j]] == procs[j],
{
    lemma_key_at(ids, j);
}

impl<P> ProcessTable<P> {
    /// The table is well formed: one process per request id.
    pub closed spec fn wf(&self) -> bool {
        &&& self.ids@.len() == self.procs@.len()
        &&& keys_unique(id_views(self.ids@))
    }

    /// An empty table.
    pub fn new() -> (t: Self)
        ensures
            t.wf(),
            t@ == Map::<Seq<char>, P>::empty(),
    {
        let t = ProcessTable { ids: Vec::new(), procs: Vec::new() };
        assert(t@ =~= Map::<Seq<char>, P>::empty());
        t
    }

    fn index_of(&self, key: &str) -> (r: Option<usize>)
        requires
            self.wf(),
        ensures
            match r {
                Some(i) => i < self.ids@.len() && first_id(
                    id_views(self.ids@),
                    key@,
                    self.ids@.len() as int,
                ) == Some(i as int),
                None => first_id(id_views(self.ids@), key@, self.ids@.len() as int) is None,
            },
    {
        let ghost ids = id_views(self.ids@);
        let n = self.ids.len();
        for i in 0..n
            invariant
                n == self.ids@.len(),
                ids == id_views(self.ids@),
                first_id(ids, key@, i as int) is None,
        {
            if same_text(self.ids[i].as_str(), key) {
                assert(ids[i as int] == key@);
                proof {
                    lemma_first_id_stable(ids, key@, i + 1, n as int);
                }
                return Some(i);
            }
        }
        None
    }

    proof fn lemma_dom(&self, key: Seq<char>)
        requires
            self.wf(),
        ensures
            self@.dom().contains(key) <==> first_id(
                id_views(self.ids@),
                key,
                self.ids@.len() as int,
            ) is Some,
            first_id(id_views(self.ids@), key, self.ids@.len() as int) matches Some(i) ==> self@[key]
                == self.procs@[i],
    {
        let ids = id_views(self.ids@);
        lemma_first_id_found(ids, key, ids.len() as int);
        if ids.contains(key) {
            let j = choose|j: int| 0 <= j < ids.len() && ids[j] == key;
            lemma_key_at(ids, j);
        }
    }

    /// Puts `p` under `key`, replacing what was there.
    pub fn insert(&mut self, key: String, p: P)
        requires
            old(self).wf(),
        ensures
            final(self).wf(),
            final(self)@ == old(self)@.insert(key@, p),
    {
        let ghost old_ids = id_views(self.ids@);
        let ghost old_procs = self.procs@;
        let ghost k = key@;
        proof {
            lemma_first_id_found(old_ids, k, old_ids.len() as int);
        }
        match self.index_of(key.as_str()) {
            Some(i) => {
                self.ids.set(i, key);
                self.procs.set(i, p);
                assert(id_views(self.ids@) =~= old_ids.update(i as int, k));
            },
            None => {
                self.ids.push(key);
                self.procs.push(p);
                assert(id_views(self.ids@) =~= old_ids.push(k));
            },
        }
        let ghost ids = id_views(self.ids@);
        let ghost procs = self.procs@;
        assert(keys_unique(ids));
        assert forall|q: Seq<char>| #![auto] self@.dom().contains(q) <==> old(self)@.insert(
            k,
            p,
        ).dom().contains(q) by {
            if ids.contains(q) {
                let j = choose|j: int| 0 <= j < ids.len() && ids[j] == q;
                if q != k {
                    assert(old_ids[j] == q);
                }
            }
            if old_ids.contains(q) {
                let j = choose|j: int| 0 <= j < old_ids.len() && old_ids[j] == q;
                assert(ids[j] == q);
            }
            if q == k {
                assert(ids.contains(k)) by {
                    let j = first_id(ids, k, ids.len() as int);
                    lemma_first_id_found(ids, k, ids.len() as int);
                    match first_id(old_ids, k, old_ids.len() as int) {
                        Some(i) => {
                            assert(ids[i] == k);
                        },
                        None => {
                            assert(ids[ids.len() - 1] == k);
                        },
                    }
                }
            }
        }
        assert forall|q: Seq<char>| #[trigger] self@.dom().contains(q) implies self@[q] == old(
            self,
        )@.insert(k, p)[q] by {
            let j = choose|j: int| 0 <= j < ids.len() && ids[j] == q;
            lemma_lookup_at(ids, procs, j);
            if q != k {
                assert(old_ids[j] == q);
                lemma_lookup_at(old_ids, old_procs, j);
            }
        }
        assert(self@ =~= old(self)@.insert(k, p));
    }

    /// Whether a process is held under `key`.
    pub fn contains_key(&self, key: &str) -> (r: bool)
        requires
            self.wf(),
        ensures
            r == self@.dom().contains(key@),
    {
        proof {
            self.lemma_dom(key@);
        }
        self.index_of(key).is_some()
    }

    /// The process held under `key`.
    pub fn get(&self, key: &str) -> (r: Option<&P>)
        requires
            self.wf(),
        ensures
            match r {
                Some(p) => self@.dom().contains(key@) && *p == self@[key@],
                None => !self@.dom().contains(key@),
            },
    {
        proof {
            self.lemma_dom(key@);
        }
        match self.index_of(key) {
            Some(i) => Some(&self.procs[i]),
            None => None,
        }
    }

    /// The process held under `key`, for changing it in place.
    pub fn get_mut(&mut self, key: &str) -> (r: Option<&mut P>)
        requires
            old(self).wf(),
        ensures
            match r {
                Some(p) => {
                    &&& old(self)@.dom().contains(key@)
                    &&& *p == old(self)@[key@]
                    &&& final(self).wf()
                    &&& final(self)@ == old(self)@.insert(key@, *final(p))
                },
                None => !old(self)@.dom().contains(key@) && *final(self) == *old(self),
            },
    {
        proof {
            self.lemma_dom(key@);
        }
        match self.index_of(key) {
            Some(i) => {
                let ghost ids = id_views(self.ids@);
                let ghost k = key@;
                assert forall|np: P| (#[trigger] table_map(ids, self.procs@.update(i as int, np)))
                    == table_map(ids, self.procs@).insert(k, np) by {
                    let nprocs = self.procs@.update(i as int, np);
                    lemma_first_id_found(ids, k, ids.len() as int);
                    assert forall|q: Seq<char>| #[trigger] table_map(ids, nprocs).dom().contains(
                        q,
                    ) implies table_map(ids, nprocs)[q] == table_map(ids, self.procs@).insert(
                        k,
                        np,
                    )[q] by {
                        let j = choose|j: int| 0 <= j < ids.len() && ids[j] == q;
                        lemma_lookup_at(ids, nprocs, j);
                        lemma_lookup_at(ids, self.procs@, j);
                        if q != k {
                            assert(j != i);
                        }
                    }
                    assert(ids.contains(k)) by {
                        assert(ids[i as int] == k);
                    }
                    assert(table_map(ids, nprocs) =~= table_map(ids, self.procs@).insert(k, np));
                }
                Some(&mut self.procs[i])
            },
            None => None,
        }
    }

    /// Takes the process held under `key` out of the table.
    pub fn remove(&mut self, key: &str) -> (r: Option<P>)
        requires
            old(self).wf(),
        ensures
            final(self).wf(),
            final(self)@ == old(self)@.remove(key@),
            match r {
                Some(p) => old(self)@.dom().contains(key@) && p == old(self)@[key@],
                None => !old(self)@.dom().contains(key@),
            },
    {
        proof {
            self.lemma_dom(key@);
        }
        let ghost old_ids = id_views(self.ids@);
        let ghost old_procs = self.procs@;
        let ghost k = key@;
        proof {
            lemma_first_id_found(old_ids, k, old_ids.len() as int);
        }
        match self.index_of(key) {
            Some(i) => {
                self.ids.remove(i);
                let p = self.procs.remove(i);
                let ghost ids = id_views(self.ids@);
                let ghost procs = self.procs@;
                assert(ids =~= old_ids.remove(i as int));
                assert(keys_unique(ids));
                assert forall|q: Seq<char>| #![auto] self@.dom().contains(q) <==> old(
                    self,
                )@.remove(k).dom().contains(q) by {
                    if ids.contains(q) {
                        let j = choose|j: int| 0 <= j < ids.len() && ids[j] == q;
                        if j < i {
                            assert(old_ids[j] == q);
                        } else {
                            assert(old_ids[j + 1] == q);
                        }
                    }
                    if old_ids.contains(q) && q != k {
                        let j = choose|j: int| 0 <= j < old_ids.len() && old_ids[j] == q;
                        if j < i {
                            assert(ids[j] == q);
                        } else {
                            assert(j != i);
                            assert(ids[j - 1] == q);
                        }
                    }
                }
                assert forall|q: Seq<char>| #[trigger] self@.dom().contains(q) implies self@[q]
                    == old(self)@.remove(k)[q] by {
                    let j = choose|j: int| 0 <= j < ids.len() && ids[j] == q;
                    lemma_lookup_at(ids, procs, j);
                    if j < i {
                        lemma_lookup_at(old_ids, old_procs, j);
                    } else {
                        lemma_lookup_at(old_ids, old_procs, j + 1);
                    }
                }
                assert(self@ =~= old(self)@.remove(k));
                Some(p)
            },
            None => {
                assert(!old(self)@.dom().contains(k));
                assert(self@ =~= old(self)@.remove(k));
                None
            },
        }
    }

    /// How many processes the table holds.
    pub fn len(&self) -> (r: usize)
        requires
            self.wf(),
        ensures
            r == self@.len(),
    {
        let ghost ids = id_views(self.ids@);
        assert(self@.dom() =~= ids.to_set());
        assert(ids.no_duplicates()) by {
            assert forall|i: int, j: int|
                0 <= i < ids.len() && 0 <= j < ids.len() && i != j implies ids[i] != ids[j] by {
                if i < j {
                } else {
                }
            }
        }
        proof {
            ids.unique_seq_to_set();
        }
        self.ids.len()
    }

    /// Empties the table, handing back its request ids and processes side by
    /// side.
    pub fn drain(&mut self) -> (r: (Vec<String>, Vec<P>))
        requires
            old(self).wf(),
        ensures
            final(self).wf(),
            final(self)@ == Map::<Seq<char>, P>::empty(),
            r.0@.len() == r.1@.len(),
            keys_unique(id_views(r.0@)),
            table_map(id_views(r.0@), r.1@) == old(self)@,
    {
        let mut ids: Vec<String> = Vec::new();
        let mut procs: Vec<P> = Vec::new();
        std::mem::swap(&mut ids, &mut self.ids);
        std::mem::swap(&mut procs, &mut self.procs);
        assert(self@ =~= Map::<Seq<char>, P>::empty());
        (ids, procs)
    }
}

} // verus!
