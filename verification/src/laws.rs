//! The engine's guarantees, stated and proved over its transition function.

use vstd::prelude::*;
use crate::engine::{current_side, step_model, Action, EventModel, Model, PhaseModel};
use crate::targets::spec_duck_level;

verus! {

/// Idempotence: observing the process that is already in focus changes
/// nothing and asks for no audio call, so repeated observations of one
/// focused process cause no calls beyond the first cycle.
pub proof fn lemma_observe_same_is_noop(m: Model, pid: u32, name: Seq<u8>)
    requires
        m.phase == PhaseModel::Idle,
        m.history == Option::Some(pid),
    ensures
        step_model(m, EventModel::Focus { pid, name: Option::Some(name) }).0 == m,
        step_model(m, EventModel::Focus { pid, name: Option::Some(name) }).1 == Action::Idle,
{
}

/// Save before duck: when focus leaves a process with no remembered volume,
/// the engine asks for exactly one volume read before any volume write to
/// that process, remembers exactly the value read, and only then ducks the
/// process to its configured level.
pub proof fn lemma_save_before_duck(
    m: Model,
    cur: u32,
    cur_name: Seq<u8>,
    prev: u32,
    v: u32,
    prev_name: Seq<u8>,
)
    requires
        m.phase == PhaseModel::Idle,
        m.history == Option::Some(prev),
        prev != cur,
        !m.memory.dom().contains(prev),
    ensures
        ({
            let (m1, a1) = step_model(m, EventModel::Focus { pid: cur, name: Option::Some(cur_name) });
            let (m2, a2) = step_model(m1, EventModel::VolumeRead { level: Option::Some(v) });
            let (m3, a3) = step_model(m2, EventModel::NameResolved { name: Option::Some(prev_name) });
            &&& a1 == Action::ReadVolume { pid: prev }
            &&& m1.memory == m.memory
            &&& a2 == Action::ResolveName { pid: prev }
            &&& m2.memory == m.memory.insert(prev, v)
            &&& a3 == Action::SetVolume { pid: prev, level: spec_duck_level(m.targets, prev_name) }
            &&& m3.memory == m2.memory
        }),
{
}

/// Restore then clear: a successful restore removes the remembered entry in
/// the same cycle, and a restore is only ever issued for a process that has
/// an entry, so no process is restored twice without a fresh save between.
pub proof fn lemma_restore_then_clear(m: Model, cur: u32, name: Seq<u8>)
    ensures
        ({
            let restored = step_model(m, EventModel::SetDone { ok: true }).0;
            m.phase == PhaseModel::RestoreCur { cur } ==> !restored.memory.dom().contains(cur)
        }),
        ({
            current_side(m, cur, name).0.phase == PhaseModel::RestoreCur { cur }
                ==> m.memory.dom().contains(cur)
        }),
{
}

/// No double store: a remembered volume is never overwritten. Whatever event
/// arrives, an existing entry either keeps its value or disappears, and it
/// disappears only through a successful restore of that very process.
pub proof fn lemma_no_double_store(m: Model, ev: EventModel, p: u32)
    requires
        m.memory.dom().contains(p),
    ensures
        ({
            let after = step_model(m, ev).0;
            after.memory.dom().contains(p) ==> after.memory[p] == m.memory[p]
        }),
        ({
            let after = step_model(m, ev).0;
            !after.memory.dom().contains(p) ==> (m.phase == PhaseModel::RestoreCur { cur: p } && ev
                == EventModel::SetDone { ok: true })
        }),
{
}

} // verus!
