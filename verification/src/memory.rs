//! The engine's volume memory: for each process id, the volume it had before
//! it was first ducked, kept until that process is restored.

use vstd::prelude::*;

verus! {

/// The mapping described by an association list, later entries winning.
pub open spec fn mem_map(s: Seq<(u32, u32)>) -> Map<u32, u32>
    decreases s.len(),
{
    if s.len() == 0 {
        Map::empty()
    } else {
        mem_map(s.drop_last()).insert(s.last().0, s.last().1)
    }
}

/// No process id occurs twice.
pub open spec fn unique_pids(s: Seq<(u32, u32)>) -> bool {
    forall|i: int, j: int| 0 <= i < j < s.len() ==> (#[trigger] s[i]).0 != (#[trigger] s[j]).0
}

/// A pid is in the mapping exactly when some entry carries it.
proof fn lemma_mem_map_dom(s: Seq<(u32, u32)>)
    ensures
        forall|pid: u32|
            mem_map(s).dom().contains(pid) <==> exists|i: int|
                0 <= i < s.len() && (#[trigger] s[i]).0 == pid,
    decreases s.len(),
{
    if s.len() > 0 {
        lemma_mem_map_dom(s.drop_last());
        assert forall|pid: u32| mem_map(s).dom().contains(pid) implies exists|i: int|
            0 <= i < s.len() && (#[trigger] s[i]).0 == pid by {
            if s.last().0 == pid {
                assert(s[s.len() - 1].0 == pid);
            } else {
                assert(mem_map(s.drop_last()).dom().contains(pid));
                let i = choose|i: int| 0 <= i < s.drop_last().len() && (#[trigger] s.drop_last()[i]).0 == pid;
                assert(s.drop_last()[i] == s[i]);
                assert(s[i].0 == pid);
            }
        }
        assert forall|pid: u32|
            (exists|i: int| 0 <= i < s.len() && (#[trigger] s[i]).0 == pid) implies mem_map(
            s,
        ).dom().contains(pid) by {
            let i = choose|i: int| 0 <= i < s.len() && (#[trigger] s[i]).0 == pid;
            if i < s.len() - 1 {
                assert(s.drop_last()[i] == s[i]);
                assert(s.drop_last()[i].0 == pid);
                assert(mem_map(s.drop_last()).dom().contains(pid));
            }
        }
    }
}

/// With unique pids, the mapping sends each entry's pid to its volume.
proof fn lemma_mem_map_at(s: Seq<(u32, u32)>, i: int)
    requires
        unique_pids(s),
        0 <= i < s.len(),
    ensures
        mem_map(s).dom().contains(s[i].0),
        mem_map(s)[s[i].0] == s[i].1,
    decreases s.len(),
{
    if i == s.len() - 1 {
    } else {
        lemma_mem_map_at(s.drop_last(), i);
        assert(s.drop_last()[i] == s[i]);
        assert(s.last().0 != s[i].0);
    }
}

/// Remembered pre-duck volumes, one per process id.
pub struct VolumeMemory {
    entries: Vec<(u32, u32)>,
}

impl View for VolumeMemory {
    type V = Map<u32, u32>;

    closed spec fn view(&self) -> Map<u32, u32> {
        mem_map(self.entries@)
    }
}

impl VolumeMemory {
    /// Every remembered volume is valid, and no pid is remembered twice.
    pub closed spec fn wf(&self) -> bool {
        &&& unique_pids(self.entries@)
        &&& forall|i: int|
            0 <= i < self.entries@.len() ==> (#[trigger] self.entries@[i]).1 <= crate::FULL_VOLUME
    }

    /// Every remembered volume is a valid level.
    pub proof fn lemma_wf_values(&self)
        requires
            self.wf(),
        ensures
            forall|pid: u32|
                self@.dom().contains(pid) ==> #[trigger] self@[pid] <= crate::FULL_VOLUME,
    {
        lemma_mem_map_dom(self.entries@);
        assert forall|pid: u32| self@.dom().contains(pid) implies #[trigger] self@[pid]
            <= crate::FULL_VOLUME by {
            let i = choose|i: int|
                0 <= i < self.entries@.len() && (#[trigger] self.entries@[i]).0 == pid;
            lemma_mem_map_at(self.entries@, i);
        }
    }

    /// An empty memory.
    pub fn new() -> (r: VolumeMemory)
        ensures
            r@ =~= Map::<u32, u32>::empty(),
            r.wf(),
    {
        VolumeMemory { entries: Vec::new() }
    }

    /// The index holding `pid`, if any.
    fn find(&self, pid: u32) -> (r: Option<usize>)
        ensures
            match r {
                Some(i) => i < self.entries@.len() && self.entries@[i as int].0 == pid,
                None => forall|k: int|
                    0 <= k < self.entries@.len() ==> (#[trigger] self.entries@[k]).0 != pid,
            },
    {
        let mut i: usize = 0;
        while i < self.entries.len()
            invariant
                i <= self.entries@.len(),
                forall|k: int| 0 <= k < i ==> (#[trigger] self.entries@[k]).0 != pid,
            decreases self.entries@.len() - i,
        {
            if self.entries[i].0 == pid {
                return Some(i);
            }
            i = i + 1;
        }
        None
    }

    /// Whether a volume is remembered for `pid`.
    pub fn contains(&self, pid: u32) -> (r: bool)
        ensures
            r == self@.dom().contains(pid),
    {
        proof {
            lemma_mem_map_dom(self.entries@);
        }
        match self.find(pid) {
            Some(_) => true,
            None => false,
        }
    }

    /// The remembered volume for `pid`, if any.
    pub fn get(&self, pid: u32) -> (r: Option<u32>)
        requires
            self.wf(),
        ensures
            r == if self@.dom().contains(pid) {
                Some(self@[pid])
            } else {
                None::<u32>
            },
    {
        proof {
            lemma_mem_map_dom(self.entries@);
        }
        match self.find(pid) {
            Some(i) => {
                proof {
                    lemma_mem_map_at(self.entries@, i as int);
                }
                Some(self.entries[i].1)
            },
            None => None,
        }
    }

    /// Remember `v` for `pid`, unless a volume is already remembered: the
    /// first saved volume is never overwritten.
    pub fn save(&mut self, pid: u32, v: u32)
        requires
            old(self).wf(),
            v <= crate::FULL_VOLUME,
        ensures
            final(self).wf(),
            final(self)@ == if old(self)@.dom().contains(pid) {
                old(self)@
            } else {
                old(self)@.insert(pid, v)
            },
    {
        proof {
            lemma_mem_map_dom(self.entries@);
        }
        match self.find(pid) {
            Some(_) => {},
            None => {
                self.entries.push((pid, v));
                proof {
                    assert(self.entries@.drop_last() == old(self).entries@);
                }
            },
        }
    }

    /// Forget the volume remembered for `pid`, if any.
    pub fn remove(&mut self, pid: u32)
        requires
            old(self).wf(),
        ensures
            final(self).wf(),
            final(self)@ == old(self)@.remove(pid),
    {
        proof {
            lemma_mem_map_dom(self.entries@);
        }
        match self.find(pid) {
            Some(i) => {
                self.entries.remove(i);
                proof {
                    lemma_mem_map_remove(old(self).entries@, i as int);
                    assert(self.entries@ == old(self).entries@.remove(i as int));
                    assert forall|a: int, b: int|
                        0 <= a < b < self.entries@.len() implies (#[trigger] self.entries@[a]).0
                        != (#[trigger] self.entries@[b]).0 by {
                        let s = old(self).entries@;
                        let a0: int = if a < i { a } else { a + 1 };
                        let b0: int = if b < i { b } else { b + 1 };
                        assert(self.entries@[a] == s[a0]);
                        assert(self.entries@[b] == s[b0]);
                    }
                }
            },
            None => {
                proof {
                    assert(self@ =~= self@.remove(pid));
                }
            },
        }
    }
}

/// Removing the entry at `i` removes exactly its pid from the mapping.
proof fn lemma_mem_map_remove(s: Seq<(u32, u32)>, i: int)
    requires
        unique_pids(s),
        0 <= i < s.len(),
    ensures
        mem_map(s.remove(i)) == mem_map(s).remove(s[i].0),
    decreases s.len(),
{
    let pid = s[i].0;
    if i == s.len() - 1 {
        assert(s.remove(i) == s.drop_last());
        lemma_mem_map_dom(s.drop_last());
        assert forall|k: int| 0 <= k < s.drop_last().len() implies (#[trigger] s.drop_last()[k]).0
            != pid by {
            assert(s[k] == s.drop_last()[k]);
        }
        assert(!mem_map(s.drop_last()).dom().contains(pid));
        assert(mem_map(s).remove(pid) =~= mem_map(s.drop_last()));
    } else {
        let t = s.drop_last();
        assert(s.remove(i).drop_last() =~= t.remove(i));
        assert(s.remove(i).last() == s.last());
        assert forall|a: int, b: int| 0 <= a < b < t.len() implies (#[trigger] t[a]).0
            != (#[trigger] t[b]).0 by {
            assert(t[a] == s[a]);
            assert(t[b] == s[b]);
        }
        lemma_mem_map_remove(t, i);
        assert(t[i] == s[i]);
        assert(s.last().0 != pid);
        assert(mem_map(s.remove(i)) == mem_map(t).remove(pid).insert(s.last().0, s.last().1));
        assert(mem_map(t).remove(pid).insert(s.last().0, s.last().1) =~= mem_map(t).insert(
            s.last().0,
            s.last().1,
        ).remove(pid));
    }
}

} // verus!
