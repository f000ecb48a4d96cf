//! The peer directory: the broker's mapping from peer names to addresses.

use vstd::prelude::*;

verus! {

/// A record of every hail the broker has observed, viewed as a map from
/// peer name to peer address. Registration is last-write-wins: a new hail
/// under a known name overwrites the address; entries are never removed.
pub struct Directory {
    entries: Vec<(String, String)>,
}

/// The map an entry log denotes: later entries overwrite earlier ones.
pub open spec fn entries_map(s: Seq<(String, String)>) -> Map<Seq<char>, Seq<char>>
    decreases s.len(),
{
    if s.len() == 0 {
        Map::empty()
    } else {
        entries_map(s.drop_last()).insert(s.last().0@, s.last().1@)
    }
}

impl View for Directory {
    type V = Map<Seq<char>, Seq<char>>;

    closed spec fn view(&self) -> Map<Seq<char>, Seq<char>> {
        entries_map(self.entries@)
    }
}

impl Directory {
    /// An empty directory.
    pub fn new() -> (r: Directory)
        ensures
            r@ == Map::<Seq<char>, Seq<char>>::empty(),
    {
        Directory { entries: Vec::new() }
    }

    /// Registers `address` under `name`, overwriting any earlier
    /// registration of that name.
    pub fn insert(&mut self, name: String, address: String)
        ensures
            final(self)@ == old(self)@.insert(name@, address@),
    {
        let ghost prev = self.entries@;
        self.entries.push((name, address));
        proof {
            assert(self.entries@.drop_last() =~= prev);
        }
    }

    /// Looks a name up: the address most recently registered under it, if
    /// any.
    pub fn lookup(&self, name: &String) -> (r: Option<&String>)
        ensures
            match r {
                Some(a) => self@.contains_key(name@) && self@[name@] == a@,
                None => !self@.contains_key(name@),
            },
    {
        let mut i: usize = self.entries.len();
        proof {
            assert(self.entries@.take(i as int) =~= self.entries@);
        }
        while i > 0
            invariant
                i <= self.entries.len(),
                entries_map(self.entries@).contains_key(name@) == entries_map(
                    self.entries@.take(i as int),
                ).contains_key(name@),
                entries_map(self.entries@.take(i as int)).contains_key(name@)
                    ==> entries_map(self.entries@)[name@] == entries_map(
                    self.entries@.take(i as int),
                )[name@],
            decreases i,
        {
            i = i - 1;
            proof {
                assert(self.entries@.take(i + 1).drop_last() =~= self.entries@.take(i as int));
                assert(self.entries@.take(i + 1).last() == self.entries@[i as int]);
            }
            let entry = &self.entries[i];
            if entry.0 == *name {
                return Some(&entry.1);
            }
        }
        proof {
            assert(self.entries@.take(0) =~= Seq::<(String, String)>::empty());
        }
        None
    }

    /// Whether a name is registered.
    pub fn contains(&self, name: &String) -> (r: bool)
        ensures
            r == self@.contains_key(name@),
    {
        self.lookup(name).is_some()
    }
}

} // verus!
