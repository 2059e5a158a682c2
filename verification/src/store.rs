use vstd::prelude::*;

verus! {

use crate::errors::GameError;
use crate::states::{Record, RecordV};
use crate::util::bytes_eq;

// The store keeps typed records keyed by derived addresses. Its abstract
// value is a map from address bytes to abstract records; the entry list is
// an implementation detail behind that map.

/// No two entries share an address.
pub open spec fn keys_unique(s: Seq<(Vec<u8>, Record)>) -> bool {
    forall|i: int, j: int| 0 <= i < j < s.len() ==> s[i].0@ != s[j].0@
}

/// The map an entry list denotes; a later entry for the same key would
/// shadow an earlier one, but `keys_unique` rules that out.
pub open spec fn map_of(s: Seq<(Vec<u8>, Record)>) -> Map<Seq<u8>, RecordV>
    decreases s.len(),
{
    if s.len() == 0 {
        Map::empty()
    } else {
        map_of(s.drop_last()).insert(s.last().0@, s.last().1@)
    }
}

/// An address is in the denoted map exactly when some entry carries it.
pub proof fn lemma_map_of_dom(s: Seq<(Vec<u8>, Record)>)
    ensures
        forall|a: Seq<u8>|
            map_of(s).dom().contains(a) <==> exists|i: int| 0 <= i < s.len() && s[i].0@ == a,
    decreases s.len(),
{
    if s.len() > 0 {
        lemma_map_of_dom(s.drop_last());
        assert forall|a: Seq<u8>| map_of(s).dom().contains(a) implies exists|i: int|
            0 <= i < s.len() && s[i].0@ == a by {
            if a == s.last().0@ {
                assert(s[s.len() - 1].0@ == a);
            } else {
                assert(map_of(s.drop_last()).dom().contains(a));
                let i = choose|i: int| 0 <= i < s.drop_last().len() && s.drop_last()[i].0@ == a;
                assert(0 <= i < s.drop_last().len() && s.drop_last()[i].0@ == a);
                assert(s[i].0@ == a);
            }
        }
        assert forall|a: Seq<u8>|
            (exists|i: int| 0 <= i < s.len() && s[i].0@ == a) implies map_of(s).dom().contains(
            a,
        ) by {
            let i = choose|i: int| 0 <= i < s.len() && s[i].0@ == a;
            if i < s.len() - 1 {
                assert(s.drop_last()[i].0@ == a);
                assert(exists|j: int| 0 <= j < s.drop_last().len() && s.drop_last()[j].0@ == a);
                assert(map_of(s.drop_last()).dom().contains(a));
            } else {
                assert(a == s.last().0@);
            }
        }
    }
}

/// With unique keys, the denoted map sends each entry's address to that
/// entry's record.
pub proof fn lemma_map_of_index(s: Seq<(Vec<u8>, Record)>, i: int)
    requires
        keys_unique(s),
        0 <= i < s.len(),
    ensures
        map_of(s).dom().contains(s[i].0@),
        map_of(s)[s[i].0@] == s[i].1@,
    decreases s.len(),
{
    if i == s.len() - 1 {
    } else {
        assert(keys_unique(s.drop_last()));
        lemma_map_of_index(s.drop_last(), i);
        assert(s[i].0@ != s.last().0@);
    }
}

/// Appending an entry denotes inserting its pair.
pub proof fn lemma_map_of_push(s: Seq<(Vec<u8>, Record)>, p: (Vec<u8>, Record))
    ensures
        map_of(s.push(p)) == map_of(s).insert(p.0@, p.1@),
{
    assert(s.push(p).drop_last() =~= s);
    assert(s.push(p).last() == p);
}

/// With unique keys, removing the entry at `i` denotes removing its address.
pub proof fn lemma_map_of_remove(s: Seq<(Vec<u8>, Record)>, i: int)
    requires
        keys_unique(s),
        0 <= i < s.len(),
    ensures
        map_of(s.remove(i)) == map_of(s).remove(s[i].0@),
    decreases s.len(),
{
    lemma_map_of_dom(s.drop_last());
    if i == s.len() - 1 {
        assert(s.remove(i) =~= s.drop_last());
        assert(!map_of(s.drop_last()).dom().contains(s[i].0@));
        assert(map_of(s.drop_last()).insert(s.last().0@, s.last().1@).remove(s[i].0@) =~= map_of(
            s.drop_last(),
        ));
    } else {
        assert(keys_unique(s.drop_last()));
        lemma_map_of_remove(s.drop_last(), i);
        assert(s.remove(i).drop_last() =~= s.drop_last().remove(i));
        assert(s.remove(i).last() == s.last());
        assert(s[i].0@ != s.last().0@);
        assert(map_of(s.drop_last()).remove(s[i].0@).insert(s.last().0@, s.last().1@) =~= map_of(
            s.drop_last(),
        ).insert(s.last().0@, s.last().1@).remove(s[i].0@));
    }
}

/// Typed, fixed-capacity records keyed by derived addresses. A record is
/// either absent or present with valid invariants; every mutation is a
/// single check-then-commit step on one address.
pub struct RecordStore {
    entries: Vec<(Vec<u8>, Record)>,
}

impl View for RecordStore {
    type V = Map<Seq<u8>, RecordV>;

    closed spec fn view(&self) -> Map<Seq<u8>, RecordV> {
        map_of(self.entries@)
    }
}

impl RecordStore {
    /// The store never holds two records at one address.
    pub closed spec fn wf(self) -> bool {
        keys_unique(self.entries@)
    }

    /// An empty store.
    pub fn new() -> (s: RecordStore)
        ensures
            s.wf(),
            s@ == Map::<Seq<u8>, RecordV>::empty(),
    {
        let s = RecordStore { entries: Vec::new() };
        s
    }

    fn index_of(&self, addr: &Vec<u8>) -> (r: Option<usize>)
        ensures
            (match r {
                Some(i) => i < self.entries@.len() && self.entries@[i as int].0@ == addr@,
                None => forall|j: int|
                    0 <= j < self.entries@.len() ==> self.entries@[j].0@ != addr@,
            }),
    {
        let mut i: usize = 0;
        while i < self.entries.len()
            invariant
                0 <= i <= self.entries@.len(),
                forall|j: int| 0 <= j < i ==> self.entries@[j].0@ != addr@,
            decreases self.entries@.len() - i,
        {
            if bytes_eq(&self.entries[i].0, addr) {
                return Some(i);
            }
            i += 1;
        }
        None
    }

    /// Whether any record lives at this address.
    pub fn contains(&self, addr: &Vec<u8>) -> (r: bool)
        ensures
            r == self@.dom().contains(addr@),
    {
        proof {
            lemma_map_of_dom(self.entries@);
        }
        match self.index_of(addr) {
            Some(i) => {
                proof {
                    assert(self.entries@[i as int].0@ == addr@);
                }
                true
            },
            None => false,
        }
    }

    /// The record at this address, if one exists.
    pub fn load(&self, addr: &Vec<u8>) -> (r: Option<&Record>)
        requires
            self.wf(),
        ensures
            (match r {
                Some(rec) => self@.dom().contains(addr@) && self@[addr@] == rec@,
                None => !self@.dom().contains(addr@),
            }),
    {
        proof {
            lemma_map_of_dom(self.entries@);
        }
        match self.index_of(addr) {
            Some(i) => {
                proof {
                    lemma_map_of_index(self.entries@, i as int);
                }
                Some(&self.entries[i].1)
            },
            None => None,
        }
    }

    /// Remove and hand back the record at this address.
    pub(crate) fn take_record(&mut self, addr: &Vec<u8>) -> (r: Result<(Vec<u8>, Record), GameError>)
        requires
            old(self).wf(),
        ensures
            final(self).wf(),
            (match r {
                Ok(p) => {
                    &&& old(self)@.dom().contains(addr@)
                    &&& p.0@ == addr@
                    &&& p.1@ == old(self)@[addr@]
                    &&& final(self)@ == old(self)@.remove(addr@)
                },
                Err(e) => {
                    &&& e == GameError::NotFound
                    &&& !old(self)@.dom().contains(addr@)
                    &&& final(self)@ == old(self)@
                },
            }),
    {
        proof {
            lemma_map_of_dom(self.entries@);
        }
        match self.index_of(addr) {
            Some(i) => {
                proof {
                    lemma_map_of_index(self.entries@, i as int);
                    lemma_map_of_remove(self.entries@, i as int);
                    assert(keys_unique(self.entries@.remove(i as int)));
                }
                let p = self.entries.remove(i);
                Ok(p)
            },
            None => Err(GameError::NotFound),
        }
    }

    /// Insert a record at a known-free address.
    pub(crate) fn put_record(&mut self, addr: Vec<u8>, rec: Record)
        requires
            old(self).wf(),
            !old(self)@.dom().contains(addr@),
        ensures
            final(self).wf(),
            final(self)@ == old(self)@.insert(addr@, rec@),
    {
        proof {
            lemma_map_of_dom(self.entries@);
            lemma_map_of_push(self.entries@, (addr, rec));
            assert(keys_unique(self.entries@.push((addr, rec))));
        }
        self.entries.push((addr, rec));
    }

    /// Create the record at this address; fails if the address is occupied.
    pub fn create(&mut self, addr: Vec<u8>, rec: Record) -> (r: Result<(), GameError>)
        requires
            old(self).wf(),
        ensures
            final(self).wf(),
            (match r {
                Ok(_) => {
                    &&& !old(self)@.dom().contains(addr@)
                    &&& final(self)@ == old(self)@.insert(addr@, rec@)
                },
                Err(e) => {
                    &&& e == GameError::AlreadyExists
                    &&& old(self)@.dom().contains(addr@)
                    &&& final(self)@ == old(self)@
                },
            }),
    {
        if self.contains(&addr) {
            Err(GameError::AlreadyExists)
        } else {
            self.put_record(addr, rec);
            Ok(())
        }
    }

    /// Replace the record at this address; fails if the address is free.
    pub fn mutate(&mut self, addr: &Vec<u8>, rec: Record) -> (r: Result<(), GameError>)
        requires
            old(self).wf(),
        ensures
            final(self).wf(),
            (match r {
                Ok(_) => {
                    &&& old(self)@.dom().contains(addr@)
                    &&& final(self)@ == old(self)@.insert(addr@, rec@)
                },
                Err(e) => {
                    &&& e == GameError::NotFound
                    &&& !old(self)@.dom().contains(addr@)
                    &&& final(self)@ == old(self)@
                },
            }),
    {
        match self.take_record(addr) {
            Ok((a, _)) => {
                self.put_record(a, rec);
                proof {
                    assert(old(self)@.remove(addr@).insert(addr@, rec@) =~= old(self)@.insert(
                        addr@,
                        rec@,
                    ));
                }
                Ok(())
            },
            Err(e) => Err(e),
        }
    }

    /// Reclaim the record at this address; fails if the address is free.
    pub fn close(&mut self, addr: &Vec<u8>) -> (r: Result<(), GameError>)
        requires
            old(self).wf(),
        ensures
            final(self).wf(),
            (match r {
                Ok(_) => {
                    &&& old(self)@.dom().contains(addr@)
                    &&& final(self)@ == old(self)@.remove(addr@)
                },
                Err(e) => {
                    &&& e == GameError::NotFound
                    &&& !old(self)@.dom().contains(addr@)
                    &&& final(self)@ == old(self)@
                },
            }),
    {
        match self.take_record(addr) {
            Ok(_) => Ok(()),
            Err(e) => Err(e),
        }
    }
}

} // verus!
