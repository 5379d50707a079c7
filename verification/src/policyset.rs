//! The set of named block policies built during one session.
//!
//! Block names are unique keys; inserting under an existing name replaces
//! that block's settings, and removal renumbers nothing (order of first
//! insertion is kept, which also makes serialization deterministic).

use vstd::prelude::*;
use crate::blocksettings::BlockSettings;

verus! {

/// First index holding `name`, or -1 when absent.
pub open spec fn spec_find_block(s: Seq<(String, BlockSettings)>, name: Seq<char>) -> int
    decreases s.len(),
{
    if s.len() == 0 {
        -1
    } else if s[0].0@ == name {
        0
    } else if spec_find_block(s.drop_first(), name) == -1 {
        -1
    } else {
        spec_find_block(s.drop_first(), name) + 1
    }
}

/// Whether some entry holds `name`.
pub open spec fn spec_contains_block(s: Seq<(String, BlockSettings)>, name: Seq<char>) -> bool {
    exists|i: int| 0 <= i < s.len() && (#[trigger] s[i]).0@ == name
}

/// `spec_find_block` returns exactly the first entry with `name`, or -1
/// when there is none.
pub proof fn lemma_find_block(s: Seq<(String, BlockSettings)>, name: Seq<char>)
    ensures
        spec_find_block(s, name) == -1 ==> !spec_contains_block(s, name),
        spec_find_block(s, name) != -1 ==> {
            &&& 0 <= spec_find_block(s, name) < s.len()
            &&& s[spec_find_block(s, name)].0@ == name
            &&& forall|j: int| 0 <= j < spec_find_block(s, name) ==> (#[trigger] s[j]).0@ != name
        },
    decreases s.len(),
{
    if s.len() > 0 && s[0].0@ != name {
        lemma_find_block(s.drop_first(), name);
        if spec_find_block(s.drop_first(), name) == -1 {
            assert forall|i: int| 0 <= i < s.len() implies (#[trigger] s[i]).0@ != name by {
                if i > 0 {
                    assert(s.drop_first()[i - 1] == s[i]);
                }
            }
        } else {
            assert forall|j: int|
                0 <= j < spec_find_block(s, name) implies (#[trigger] s[j]).0@ != name by {
                if j > 0 {
                    assert(s.drop_first()[j - 1] == s[j]);
                }
            }
        }
    }
}

/// If entry `k` holds `name` and no earlier entry does, the find returns `k`.
pub proof fn lemma_find_block_at(s: Seq<(String, BlockSettings)>, name: Seq<char>, k: int)
    requires
        0 <= k < s.len(),
        s[k].0@ == name,
        forall|j: int| 0 <= j < k ==> (#[trigger] s[j]).0@ != name,
    ensures
        spec_find_block(s, name) == k,
{
    lemma_find_block(s, name);
    let f = spec_find_block(s, name);
    if f == -1 {
        assert(s[k].0@ == name);
    } else {
        if f < k {
            assert(s[f].0@ != name);
        }
        if f > k {
            assert(s[k].0@ != name);
        }
    }
}

/// Mapping from block name to block settings, insertion order kept.
#[derive(Debug)]
pub struct PolicySet {
    pub blocks: Vec<(String, BlockSettings)>,
}

impl PolicySet {
    /// Block names are unique keys.
    pub open spec fn wf(self) -> bool {
        forall|i: int, j: int|
            0 <= i < j < self.blocks@.len() ==> (#[trigger] self.blocks@[i]).0@ != (
            #[trigger] self.blocks@[j]).0@
    }

    pub fn new() -> (s: PolicySet)
        ensures
            s.blocks@.len() == 0,
            s.wf(),
    {
        PolicySet { blocks: Vec::new() }
    }

    pub fn len(&self) -> (n: usize)
        ensures
            n == self.blocks@.len(),
    {
        self.blocks.len()
    }

    /// First index holding `name`, if any.
    fn find_index(&self, name: &str) -> (r: Option<usize>)
        ensures
            match r {
                Some(i) => i == spec_find_block(self.blocks@, name@),
                None => spec_find_block(self.blocks@, name@) == -1,
            },
    {
        let n = self.blocks.len();
        let mut i: usize = 0;
        while i < n
            invariant
                i <= n,
                n == self.blocks@.len(),
                forall|j: int| 0 <= j < i ==> (#[trigger] self.blocks@[j]).0@ != name@,
            decreases n - i,
        {
            if crate::strutil::str_eq(self.blocks[i].0.as_str(), name) {
                proof {
                    lemma_find_block_at(self.blocks@, name@, i as int);
                }
                return Some(i);
            }
            i = i + 1;
        }
        proof {
            lemma_find_block(self.blocks@, name@);
            if spec_find_block(self.blocks@, name@) != -1 {
                assert(self.blocks@[spec_find_block(self.blocks@, name@)].0@ == name@);
            }
        }
        None
    }

    pub fn contains_block(&self, name: &str) -> (r: bool)
        ensures
            r == spec_contains_block(self.blocks@, name@),
    {
        proof {
            lemma_find_block(self.blocks@, name@);
        }
        match self.find_index(name) {
            Some(i) => {
                proof {
                    assert(self.blocks@[i as int].0@ == name@);
                }
                true
            },
            None => false,
        }
    }

    /// Stores `settings` under `name`: replaces the settings of an
    /// existing block of that name, otherwise appends a new entry.
    pub fn insert(&mut self, name: String, settings: BlockSettings)
        requires
            old(self).wf(),
        ensures
            final(self).wf(),
            ({
                let f = spec_find_block(old(self).blocks@, name@);
                if f == -1 {
                    final(self).blocks@ == old(self).blocks@.push((name, settings))
                } else {
                    final(self).blocks@ == old(self).blocks@.update(f, (name, settings))
                }
            }),
    {
        proof {
            lemma_find_block(self.blocks@, name@);
        }
        match self.find_index(name.as_str()) {
            Some(i) => {
                self.blocks[i] = (name, settings);
                proof {
                    assert forall|a: int, b: int|
                        0 <= a < b < self.blocks@.len() implies (#[trigger] self.blocks@[a]).0@
                        != (#[trigger] self.blocks@[b]).0@ by {
                        assert(old(self).blocks@[a].0@ != old(self).blocks@[b].0@);
                    }
                }
            },
            None => {
                self.blocks.push((name, settings));
                proof {
                    assert forall|a: int, b: int|
                        0 <= a < b < self.blocks@.len() implies (#[trigger] self.blocks@[a]).0@
                        != (#[trigger] self.blocks@[b]).0@ by {
                        if b < self.blocks@.len() - 1 {
                            assert(old(self).blocks@[a].0@ != old(self).blocks@[b].0@);
                        } else {
                            assert(!spec_contains_block(old(self).blocks@, name@));
                        }
                    }
                }
            },
        }
    }

    /// Adds a new block only when the name is still free, as the
    /// command-driven session does; reports whether it was added.
    pub fn add_block(&mut self, name: String, settings: BlockSettings) -> (added: bool)
        requires
            old(self).wf(),
        ensures
            final(self).wf(),
            added == !spec_contains_block(old(self).blocks@, name@),
            added ==> final(self).blocks@ == old(self).blocks@.push((name, settings)),
            !added ==> *final(self) == *old(self),
    {
        proof {
            lemma_find_block(self.blocks@, name@);
        }
        if self.contains_block(name.as_str()) {
            false
        } else {
            self.blocks.push((name, settings));
            proof {
                assert forall|a: int, b: int|
                    0 <= a < b < self.blocks@.len() implies (#[trigger] self.blocks@[a]).0@ != (
                #[trigger] self.blocks@[b]).0@ by {
                    if b < self.blocks@.len() - 1 {
                        assert(old(self).blocks@[a].0@ != old(self).blocks@[b].0@);
                    } else {
                        assert(!spec_contains_block(old(self).blocks@, name@));
                    }
                }
            }
            true
        }
    }

    /// Removes the block of that name, keeping the order of the rest;
    /// reports whether anything was removed.
    pub fn remove_block(&mut self, name: &str) -> (r: bool)
        requires
            old(self).wf(),
        ensures
            final(self).wf(),
            r == spec_contains_block(old(self).blocks@, name@),
            ({
                let f = spec_find_block(old(self).blocks@, name@);
                if f == -1 {
                    final(self).blocks@ == old(self).blocks@
                } else {
                    final(self).blocks@ == old(self).blocks@.remove(f)
                }
            }),
    {
        proof {
            lemma_find_block(self.blocks@, name@);
        }
        match self.find_index(name) {
            Some(i) => {
                self.blocks.remove(i);
                proof {
                    let f = i as int;
                    assert(old(self).blocks@[f].0@ == name@);
                    old(self).blocks@.remove_ensures(f);
                    assert forall|a: int, b: int|
                        0 <= a < b < self.blocks@.len() implies (#[trigger] self.blocks@[a]).0@
                        != (#[trigger] self.blocks@[b]).0@ by {
                        let oa = if a < f {
                            a
                        } else {
                            a + 1
                        };
                        let ob = if b < f {
                            b
                        } else {
                            b + 1
                        };
                        assert(self.blocks@[a] == old(self).blocks@[oa]);
                        assert(self.blocks@[b] == old(self).blocks@[ob]);
                        assert(old(self).blocks@[oa].0@ != old(self).blocks@[ob].0@);
                    }
                }
                true
            },
            None => false,
        }
    }

    /// Settings stored under `name`, if that block exists.
    pub fn get(&self, name: &str) -> (r: Option<&BlockSettings>)
        ensures
            match r {
                Some(settings) => {
                    let f = spec_find_block(self.blocks@, name@);
                    f != -1 && *settings == self.blocks@[f].1
                },
                None => !spec_contains_block(self.blocks@, name@),
            },
    {
        proof {
            lemma_find_block(self.blocks@, name@);
        }
        match self.find_index(name) {
            Some(i) => Some(&self.blocks[i].1),
            None => None,
        }
    }

    /// The block names, in insertion order.
    pub fn names(&self) -> (r: Vec<String>)
        ensures
            r@.len() == self.blocks@.len(),
            forall|i: int| 0 <= i < r@.len() ==> (#[trigger] r@[i])@ == self.blocks@[i].0@,
    {
        let n = self.blocks.len();
        let mut r: Vec<String> = Vec::new();
        let mut i: usize = 0;
        while i < n
            invariant
                i <= n,
                n == self.blocks@.len(),
                r@.len() == i,
                forall|j: int| 0 <= j < i ==> (#[trigger] r@[j])@ == self.blocks@[j].0@,
            decreases n - i,
        {
            r.push(self.blocks[i].0.clone());
            i = i + 1;
        }
        r
    }
}

} // verus!
