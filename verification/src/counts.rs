//! Per-client request counters for one rate-limit window.
//!
//! The table maps a client identifier to the number of requests that were
//! counted for it since the table was last cleared. Its view is a
//! mathematical map from the identifier's characters to the count.

use vstd::prelude::*;

verus! {

/// A table from client identifier to request count.
///
/// In a well-formed table no identifier occurs twice. `new` builds a
/// well-formed table and every method keeps it so.
pub struct RequestCounts {
    entries: Vec<(String, usize)>,
}

impl View for RequestCounts {
    type V = Map<Seq<char>, nat>;

    closed spec fn view(&self) -> Map<Seq<char>, nat> {
        Map::new(
            |k: Seq<char>| self.keys().contains(k),
            |k: Seq<char>| self.entries@[self.keys().index_of(k)].1 as nat,
        )
    }
}

impl RequestCounts {
    /// The identifiers in the table, in storage order.
    pub closed spec fn keys(&self) -> Seq<Seq<char>> {
        Seq::new(self.entries@.len(), |i: int| self.entries@[i].0@)
    }

    /// No identifier occurs twice.
    pub closed spec fn wf(&self) -> bool {
        self.keys().no_duplicates()
    }

    /// An empty table.
    pub fn new() -> (r: RequestCounts)
        ensures
            r.wf(),
            r@ == Map::<Seq<char>, nat>::empty(),
    {
        let r = RequestCounts { entries: Vec::new() };
        assert(r.keys() =~= Seq::<Seq<char>>::empty());
        assert(r@ =~= Map::<Seq<char>, nat>::empty());
        r
    }

    /// The position of `client` in the table, if it has an entry.
    fn position(&self, client: &String) -> (r: Option<usize>)
        ensures
            match r {
                Some(i) => i < self.entries@.len() && self.entries@[i as int].0@ == client@,
                None => !self.keys().contains(client@),
            },
    {
        let mut i: usize = 0;
        while i < self.entries.len()
            invariant
                i <= self.entries@.len(),
                forall|j: int| 0 <= j < i ==> self.keys()[j] != client@,
            decreases self.entries@.len() - i,
        {
            if self.entries[i].0 == *client {
                return Some(i);
            }
            i += 1;
        }
        None
    }

    /// The count recorded for `client`, if any.
    pub fn get(&self, client: &str) -> (r: Option<usize>)
        requires
            self.wf(),
        ensures
            match r {
                Some(c) => self@.contains_key(client@) && self@[client@] == c,
                None => !self@.contains_key(client@),
            },
    {
        let key = client.to_owned();
        match self.position(&key) {
            Some(i) => {
                assert(self.keys()[i as int] == client@);
                Some(self.entries[i].1)
            },
            None => None,
        }
    }

    /// Records `count` for `client`, replacing any earlier count.
    pub fn set(&mut self, client: &str, count: usize)
        requires
            old(self).wf(),
        ensures
            final(self).wf(),
            final(self)@ == old(self)@.insert(client@, count as nat),
    {
        let key = client.to_owned();
        let ghost before = *self;
        match self.position(&key) {
            Some(i) => {
                self.entries.set(i, (key, count));
                assert(self.keys() =~= before.keys());
                assert(before.keys()[i as int] == client@);
            },
            None => {
                self.entries.push((key, count));
                assert(self.keys() =~= before.keys().push(client@));
                assert(self.keys()[before.keys().len() as int] == client@);
            },
        }
        assert(self@ =~= before@.insert(client@, count as nat)) by {
            assert forall|k: Seq<char>| self@.contains_key(k) <==> before@.insert(
                client@,
                count as nat,
            ).contains_key(k) by {
                if before.keys().contains(k) {
                    let j = before.keys().index_of(k);
                    assert(self.keys()[j] == k);
                }
            }
            assert forall|k: Seq<char>| self@.contains_key(k) implies self@[k] == before@.insert(
                client@,
                count as nat,
            )[k] by {
                let j = self.keys().index_of(k);
                assert(self.keys()[j] == k);
                if k != client@ {
                    assert(before.keys()[j] == k);
                    let j0 = before.keys().index_of(k);
                    assert(before.keys()[j0] == k);
                    assert(j0 == j);
                }
            }
        }
    }

    /// Forgets every count.
    pub fn clear(&mut self)
        ensures
            final(self).wf(),
            final(self)@ == Map::<Seq<char>, nat>::empty(),
    {
        self.entries.clear();
        assert(self.keys() =~= Seq::<Seq<char>>::empty());
        assert(self@ =~= Map::<Seq<char>, nat>::empty());
    }
}

} // verus!
