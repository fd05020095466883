//! The connections the acceptor holds between reads, keyed by token number.
use std::collections::HashMap;
use vstd::prelude::*;

verus! {

broadcast use vstd::std_specs::hash::group_hash_axioms;

/// Every pending connection moved into the live map in the order they came, so that
/// of two for one token the later stays.
pub open spec fn settled<T>(live: Map<usize, T>, pending: Seq<(usize, T)>) -> Map<usize, T>
    decreases pending.len(),
{
    if pending.len() == 0 {
        live
    } else {
        settled(live.insert(pending[0].0, pending[0].1), pending.drop_first())
    }
}

/// The last place in `pending` that holds `token`.
pub open spec fn pending_index<T>(pending: Seq<(usize, T)>, token: usize) -> Option<int> {
    if exists|i: int| 0 <= i < pending.len() && (#[trigger] pending[i]).0 == token {
        Some(
            choose|i: int|
                0 <= i < pending.len() && (#[trigger] pending[i]).0 == token && forall|j: int|
                    i < j < pending.len() ==> (#[trigger] pending[j]).0 != token,
        )
    } else {
        None
    }
}

pub struct ConnectionTable<T> {
    /// Connections waiting for their next readable event.
    pub live: HashMap<usize, T>,
    /// Connections handed back by workers since the last poll, in the order they came.
    pub reusable: Vec<(usize, T)>,
}

impl<T> ConnectionTable<T> {
    pub fn new() -> (r: Self)
        ensures
            r.live@ == Map::<usize, T>::empty(),
            r.reusable@ == Seq::<(usize, T)>::empty(),
    {
        ConnectionTable { live: HashMap::new(), reusable: Vec::new() }
    }

    /// Parks a connection until its next readable event.
    pub fn park(&mut self, token: usize, connection: T)
        ensures
            final(self).live@ == old(self).live@.insert(token, connection),
            final(self).reusable@ == old(self).reusable@,
    {
        self.live.insert(token, connection);
    }

    /// Takes in a connection that a worker handed back for reuse.
    pub fn hand_back(&mut self, token: usize, connection: T)
        ensures
            final(self).reusable@ == old(self).reusable@.push((token, connection)),
            final(self).live@ == old(self).live@,
    {
        self.reusable.push((token, connection));
    }

    /// Takes the connection of a token that became readable: one handed back for reuse
    /// comes before one parked, and the latest one handed back first.
    pub fn take(&mut self, token: usize) -> (r: Option<T>)
        ensures
            match pending_index(old(self).reusable@, token) {
                Some(i) => {
                    &&& r == Some(old(self).reusable@[i].1)
                    &&& final(self).reusable@ == old(self).reusable@.remove(i)
                    &&& final(self).live@ == old(self).live@
                },
                None => {
                    &&& final(self).reusable@ == old(self).reusable@
                    &&& final(self).live@ == old(self).live@.remove(token)
                    &&& match r {
                        Some(c) => old(self).live@.contains_key(token) && c == old(
                            self,
                        ).live@[token],
                        None => !old(self).live@.contains_key(token),
                    }
                },
            },
    {
        let mut i: usize = self.reusable.len();
        while i > 0
            invariant
                i <= self.reusable@.len(),
                self.reusable@ == old(self).reusable@,
                self.live@ == old(self).live@,
                forall|j: int| i <= j < self.reusable@.len() ==> (#[trigger] self.reusable@[j]).0
                    != token,
            decreases i,
        {
            i -= 1;
            if self.reusable[i].0 == token {
                let ghost p = self.reusable@;
                assert(pending_index(p, token) == Some(i as int)) by {
                    assert(p[i as int].0 == token);
                    let k = choose|k: int|
                        0 <= k < p.len() && (#[trigger] p[k]).0 == token && forall|j: int|
                            k < j < p.len() ==> (#[trigger] p[j]).0 != token;
                    assert(k == i as int) by {
                        if k < i as int {
                            assert(p[i as int].0 != token);
                        } else if k > i as int {
                            assert(p[k].0 != token);
                        }
                    }
                }
                let (_, connection) = self.reusable.remove(i);
                return Some(connection);
            }
        }
        assert(pending_index(self.reusable@, token) is None);
        self.live.remove(&token)
    }

    /// Parks again every connection handed back that had no event this time.
    pub fn settle(&mut self)
        ensures
            final(self).live@ == settled(old(self).live@, old(self).reusable@),
            final(self).reusable@ == Seq::<(usize, T)>::empty(),
    {
        while self.reusable.len() > 0
            invariant
                settled(self.live@, self.reusable@) == settled(
                    old(self).live@,
                    old(self).reusable@,
                ),
            decreases self.reusable@.len(),
        {
            let ghost before = self.reusable@;
            let (token, connection) = self.reusable.remove(0);
            assert(before.drop_first() == self.reusable@);
            self.live.insert(token, connection);
        }
        assert(self.reusable@ =~= Seq::<(usize, T)>::empty());
    }
}

} // verus!
