//! The target-program table: lowercase name fragments mapped to the volume a
//! matching program should be ducked to while it is out of focus.

use vstd::prelude::*;
use crate::text::{contains_bytes, is_substring, lower_bytes, spec_lower};

verus! {

/// Ducking level applied to a process whose name matches no fragment,
/// in thousandths of full volume.
pub const DEFAULT_DUCK_LEVEL: u32 = 100;

/// A configured fragment matches a process name when the fragment occurs
/// inside the ASCII-lowercased name.
pub open spec fn name_matches(key: Seq<u8>, name: Seq<u8>) -> bool {
    is_substring(key, spec_lower(name))
}

/// The ducking level for `name`, scanning entries from index `i` on and
/// taking the first matching fragment, or the default when none matches.
pub open spec fn duck_from(entries: Seq<(Seq<u8>, u32)>, name: Seq<u8>, i: int) -> u32
    decreases entries.len() - i,
{
    if i < 0 || i >= entries.len() {
        DEFAULT_DUCK_LEVEL
    } else if name_matches(entries[i].0, name) {
        entries[i].1
    } else {
        duck_from(entries, name, i + 1)
    }
}

/// Mapping from lowercase name fragments to unfocused ("ducked") volume
/// levels, kept in insertion order; lookups take the first matching fragment.
pub struct TargetMap {
    entries: Vec<(Vec<u8>, u32)>,
}

/// The entries a vector of fragment/level pairs stands for.
pub open spec fn entries_model(s: Seq<(Vec<u8>, u32)>) -> Seq<(Seq<u8>, u32)> {
    s.map_values(|e: (Vec<u8>, u32)| (e.0@, e.1))
}

impl View for TargetMap {
    type V = Seq<(Seq<u8>, u32)>;

    closed spec fn view(&self) -> Seq<(Seq<u8>, u32)> {
        entries_model(self.entries@)
    }
}

/// Some fragment of `entries` matches `name`.
pub open spec fn spec_is_target(entries: Seq<(Seq<u8>, u32)>, name: Seq<u8>) -> bool {
    exists|i: int| 0 <= i < entries.len() && name_matches(#[trigger] entries[i].0, name)
}

/// The ducking level configured for `name`: the first matching fragment's
/// level, or the default when none matches.
pub open spec fn spec_duck_level(entries: Seq<(Seq<u8>, u32)>, name: Seq<u8>) -> u32 {
    duck_from(entries, name, 0)
}

/// Every fragment is non-empty and already lowercase, every level is a valid
/// volume, and no fragment occurs twice.
pub open spec fn targets_wf(entries: Seq<(Seq<u8>, u32)>) -> bool {
    &&& forall|i: int|
        0 <= i < entries.len() ==> {
            &&& (#[trigger] entries[i]).0.len() > 0
            &&& entries[i].0 == spec_lower(entries[i].0)
            &&& entries[i].1 <= crate::FULL_VOLUME
        }
    &&& forall|i: int, j: int|
        0 <= i < j < entries.len() ==> (#[trigger] entries[i]).0 != (#[trigger] entries[j]).0
}

impl TargetMap {
    /// The table's entries are well formed.
    pub open spec fn wf(&self) -> bool {
        targets_wf(self@)
    }

    /// A table holding exactly these fragment/level pairs.
    pub fn from_entries(entries: Vec<(Vec<u8>, u32)>) -> (r: TargetMap)
        requires
            targets_wf(entries_model(entries@)),
        ensures
            r.wf(),
            r@ == entries_model(entries@),
    {
        TargetMap { entries }
    }

    /// An empty table: nothing is a target, everything ducks to the default.
    pub fn new() -> (r: TargetMap)
        ensures
            r@ =~= Seq::<(Seq<u8>, u32)>::empty(),
            r.wf(),
    {
        TargetMap { entries: Vec::new() }
    }

    pub fn len(&self) -> (r: usize)
        ensures
            r == self@.len(),
    {
        self.entries.len()
    }

    /// The exact (lowercased) fragment is already present.
    pub fn has_fragment(&self, key: &Vec<u8>) -> (r: bool)
        ensures
            r == exists|i: int| 0 <= i < self@.len() && (#[trigger] self@[i]).0 == spec_lower(key@),
    {
        let lowered = lower_bytes(key);
        let mut i: usize = 0;
        while i < self.entries.len()
            invariant
                i <= self@.len(),
                lowered@ == spec_lower(key@),
                forall|k: int| 0 <= k < i ==> (#[trigger] self@[k]).0 != spec_lower(key@),
            decreases self@.len() - i,
        {
            if bytes_eq(&self.entries[i].0, &lowered) {
                proof {
                    assert(self@[i as int].0 == spec_lower(key@));
                }
                return true;
            }
            i = i + 1;
        }
        false
    }

    /// Add a fragment with its ducked level; the fragment is stored
    /// lowercased. A fragment already present keeps its old level.
    pub fn insert(&mut self, key: Vec<u8>, level: u32)
        requires
            old(self).wf(),
            key@.len() > 0,
            level <= crate::FULL_VOLUME,
        ensures
            final(self).wf(),
            final(self)@ == if exists|i: int|
                0 <= i < old(self)@.len() && (#[trigger] old(self)@[i]).0 == spec_lower(key@) {
                old(self)@
            } else {
                old(self)@.push((spec_lower(key@), level))
            },
    {
        if !self.has_fragment(&key) {
            let lowered = lower_bytes(&key);
            proof {
                crate::text::lemma_lower_idempotent(key@);
            }
            self.entries.push((lowered, level));
            proof {
                assert(self@ =~= old(self)@.push((spec_lower(key@), level)));
            }
        }
    }

    /// Whether a process name matches any configured fragment.
    pub fn is_target(&self, name: &Vec<u8>) -> (r: bool)
        ensures
            r == spec_is_target(self@, name@),
    {
        let lowered = lower_bytes(name);
        let mut i: usize = 0;
        while i < self.entries.len()
            invariant
                i <= self@.len(),
                lowered@ == spec_lower(name@),
                forall|k: int| 0 <= k < i ==> !name_matches((#[trigger] self@[k]).0, name@),
            decreases self@.len() - i,
        {
            if contains_bytes(&self.entries[i].0, &lowered) {
                proof {
                    assert(name_matches(self@[i as int].0, name@));
                }
                return true;
            }
            i = i + 1;
        }
        false
    }

    /// The level a process with this name should be ducked to: the first
    /// matching fragment's configured level, or the default.
    pub fn duck_level(&self, name: &Vec<u8>) -> (r: u32)
        requires
            self.wf(),
        ensures
            r == spec_duck_level(self@, name@),
            r <= crate::FULL_VOLUME,
    {
        let lowered = lower_bytes(name);
        let mut i: usize = 0;
        while i < self.entries.len()
            invariant
                self.wf(),
                i <= self@.len(),
                lowered@ == spec_lower(name@),
                spec_duck_level(self@, name@) == duck_from(self@, name@, i as int),
            decreases self@.len() - i,
        {
            if contains_bytes(&self.entries[i].0, &lowered) {
                return self.entries[i].1;
            }
            i = i + 1;
        }
        DEFAULT_DUCK_LEVEL
    }
}

/// Byte-for-byte equality of two byte strings.
pub fn bytes_eq(a: &Vec<u8>, b: &Vec<u8>) -> (r: bool)
    ensures
        r == (a@ == b@),
{
    if a.len() != b.len() {
        return false;
    }
    let mut i: usize = 0;
    while i < a.len()
        invariant
            a@.len() == b@.len(),
            i <= a@.len(),
            forall|k: int| 0 <= k < i ==> a@[k] == b@[k],
        decreases a@.len() - i,
    {
        if a[i] != b[i] {
            return false;
        }
        i = i + 1;
    }
    proof {
        assert(a@ =~= b@);
    }
    true
}

} // verus!
