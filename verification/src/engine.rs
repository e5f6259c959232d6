//! The focus-based volume-ducking engine.
//!
//! The engine is a state machine driven by one serialized stream of events.
//! A cycle starts with a `Focus` observation. If the focused process changed,
//! the engine first handles the process that lost focus: it reads and
//! remembers that process's live volume on first contact, then ducks it to
//! its configured unfocused level. It then handles the newly focused process:
//! a process with a remembered volume is restored to it (and the entry is
//! cleared on success); a target process with no remembered volume has its
//! live volume read and remembered, then is raised to full volume.
//!
//! The engine never performs I/O itself: it answers each event with the next
//! `Action` the caller must perform (read a volume, resolve a name, set a
//! volume), and the caller feeds the outcome back as the next event.

use vstd::prelude::*;
use crate::memory::VolumeMemory;
use crate::targets::{spec_duck_level, spec_is_target, targets_wf, TargetMap};
use crate::FULL_VOLUME;

verus! {

/// What the engine asks its caller to do next.
#[derive(Debug, Clone, Copy, PartialEq, Eq, Structural)]
pub enum Action {
    /// Read the live volume of this process and report it back.
    ReadVolume { pid: u32 },
    /// Resolve this process id to an executable name and report it back.
    ResolveName { pid: u32 },
    /// Set this process's volume to `level` and report whether it worked.
    SetVolume { pid: u32, level: u32 },
    /// The cycle is finished; wait for the next focus observation.
    Idle,
}

/// What the caller reports to the engine.
#[derive(Debug)]
pub enum Event {
    /// A focus observation: this process owns the focused window now.
    /// `name` is its resolved executable name, or `None` if resolution
    /// failed.
    Focus { pid: u32, name: Option<Vec<u8>> },
    /// The outcome of a requested volume read; `None` if the process has no
    /// audio session.
    VolumeRead { level: Option<u32> },
    /// The outcome of a requested name resolution.
    NameResolved { name: Option<Vec<u8>> },
    /// Whether a requested volume write succeeded.
    SetDone { ok: bool },
}

/// Where the engine stands inside one observation cycle.
enum Phase {
    Idle,
    SavePrev { cur: u32, cur_name: Vec<u8>, prev: u32 },
    NamePrev { cur: u32, cur_name: Vec<u8>, prev: u32 },
    DuckPrev { cur: u32, cur_name: Vec<u8>, prev: u32 },
    SaveCur { cur: u32 },
    RestoreCur { cur: u32 },
    RaiseCur { cur: u32 },
}

/// The mathematical image of `Phase`.
#[verifier::ext_equal]
pub enum PhaseModel {
    Idle,
    SavePrev { cur: u32, cur_name: Seq<u8>, prev: u32 },
    NamePrev { cur: u32, cur_name: Seq<u8>, prev: u32 },
    DuckPrev { cur: u32, cur_name: Seq<u8>, prev: u32 },
    SaveCur { cur: u32 },
    RestoreCur { cur: u32 },
    RaiseCur { cur: u32 },
}

/// The mathematical image of `Event`.
pub enum EventModel {
    Focus { pid: u32, name: Option<Seq<u8>> },
    VolumeRead { level: Option<u32> },
    NameResolved { name: Option<Seq<u8>> },
    SetDone { ok: bool },
}

/// The mathematical state of the engine: the target table, the volume
/// memory, the previously focused process, and the position in the cycle.
#[verifier::ext_equal]
pub struct Model {
    pub targets: Seq<(Seq<u8>, u32)>,
    pub memory: Map<u32, u32>,
    pub history: Option<u32>,
    pub phase: PhaseModel,
}

impl Phase {
    spec fn model(&self) -> PhaseModel {
        match self {
            Phase::Idle => PhaseModel::Idle,
            Phase::SavePrev { cur, cur_name, prev } => PhaseModel::SavePrev {
                cur: *cur,
                cur_name: cur_name@,
                prev: *prev,
            },
            Phase::NamePrev { cur, cur_name, prev } => PhaseModel::NamePrev {
                cur: *cur,
                cur_name: cur_name@,
                prev: *prev,
            },
            Phase::DuckPrev { cur, cur_name, prev } => PhaseModel::DuckPrev {
                cur: *cur,
                cur_name: cur_name@,
                prev: *prev,
            },
            Phase::SaveCur { cur } => PhaseModel::SaveCur { cur: *cur },
            Phase::RestoreCur { cur } => PhaseModel::RestoreCur { cur: *cur },
            Phase::RaiseCur { cur } => PhaseModel::RaiseCur { cur: *cur },
        }
    }
}

impl View for Event {
    type V = EventModel;

    open spec fn view(&self) -> EventModel {
        match self {
            Event::Focus { pid, name } => EventModel::Focus {
                pid: *pid,
                name: match name {
                    Option::Some(n) => Option::Some(n@),
                    Option::None => Option::None,
                },
            },
            Event::VolumeRead { level } => EventModel::VolumeRead { level: *level },
            Event::NameResolved { name } => EventModel::NameResolved {
                name: match name {
                    Option::Some(n) => Option::Some(n@),
                    Option::None => Option::None,
                },
            },
            Event::SetDone { ok } => EventModel::SetDone { ok: *ok },
        }
    }
}

/// Volumes reported to the engine must lie in the normalized range.
pub open spec fn valid_event(ev: EventModel) -> bool {
    match ev {
        EventModel::VolumeRead { level } => match level {
            Option::Some(v) => v <= FULL_VOLUME,
            Option::None => true,
        },
        _ => true,
    }
}

/// A model is well formed when its target table is and every remembered
/// volume is a valid level.
pub open spec fn model_wf(m: Model) -> bool {
    &&& targets_wf(m.targets)
    &&& forall|p: u32| m.memory.dom().contains(p) ==> #[trigger] m.memory[p] <= FULL_VOLUME
}

/// Remember `v` for `pid` unless a volume is already remembered: the first
/// saved volume is never overwritten.
pub open spec fn saved(memory: Map<u32, u32>, pid: u32, v: u32) -> Map<u32, u32> {
    if memory.dom().contains(pid) {
        memory
    } else {
        memory.insert(pid, v)
    }
}

/// Turn to the newly focused process `cur`: restore it to its remembered
/// volume if one exists, otherwise read-and-raise it if it is a target,
/// otherwise leave it alone and end the cycle.
pub open spec fn current_side(m: Model, cur: u32, cur_name: Seq<u8>) -> (Model, Action) {
    if m.memory.dom().contains(cur) {
        (
            Model { phase: PhaseModel::RestoreCur { cur }, ..m },
            Action::SetVolume { pid: cur, level: m.memory[cur] },
        )
    } else if spec_is_target(m.targets, cur_name) {
        (Model { phase: PhaseModel::SaveCur { cur }, ..m }, Action::ReadVolume { pid: cur })
    } else {
        (Model { phase: PhaseModel::Idle, ..m }, Action::Idle)
    }
}

/// The engine's transition function: one event in, the next action out.
///
/// A `Focus` observation of the process already in focus is a no-op. A focus
/// change first handles the process that lost focus (save its live volume on
/// first contact, then duck it to its configured level; a process whose name
/// cannot be resolved is not ducked), then the process that gained focus
/// (restore a remembered volume and clear it on success, or read-and-raise a
/// first-seen target to full volume). Focus history advances on every
/// observation of a new pid, even when resolution or a volume write fails.
/// An event that does not answer the engine's pending action is ignored.
pub open spec fn step_model(m: Model, ev: EventModel) -> (Model, Action) {
    match (m.phase, ev) {
        (PhaseModel::Idle, EventModel::Focus { pid, name }) => match name {
            Option::None => (Model { history: Option::Some(pid), ..m }, Action::Idle),
            Option::Some(n) => {
                if m.history == Option::Some(pid) {
                    (m, Action::Idle)
                } else {
                    let m1 = Model { history: Option::Some(pid), ..m };
                    match m.history {
                        Option::Some(prev) => {
                            if !m.memory.dom().contains(prev) {
                                (
                                    Model {
                                        phase: PhaseModel::SavePrev { cur: pid, cur_name: n, prev },
                                        ..m1
                                    },
                                    Action::ReadVolume { pid: prev },
                                )
                            } else {
                                (
                                    Model {
                                        phase: PhaseModel::NamePrev { cur: pid, cur_name: n, prev },
                                        ..m1
                                    },
                                    Action::ResolveName { pid: prev },
                                )
                            }
                        },
                        Option::None => current_side(m1, pid, n),
                    }
                }
            },
        },
        (PhaseModel::SavePrev { cur, cur_name, prev }, EventModel::VolumeRead { level }) => {
            let m1 = match level {
                Option::Some(v) => Model { memory: saved(m.memory, prev, v), ..m },
                Option::None => m,
            };
            (
                Model { phase: PhaseModel::NamePrev { cur, cur_name, prev }, ..m1 },
                Action::ResolveName { pid: prev },
            )
        },
        (PhaseModel::NamePrev { cur, cur_name, prev }, EventModel::NameResolved { name }) => match name {
            Option::Some(pn) => (
                Model { phase: PhaseModel::DuckPrev { cur, cur_name, prev }, ..m },
                Action::SetVolume { pid: prev, level: spec_duck_level(m.targets, pn) },
            ),
            Option::None => current_side(m, cur, cur_name),
        },
        (PhaseModel::DuckPrev { cur, cur_name, prev: _ }, EventModel::SetDone { ok: _ }) => {
            current_side(m, cur, cur_name)
        },
        (PhaseModel::SaveCur { cur }, EventModel::VolumeRead { level }) => {
            let m1 = match level {
                Option::Some(v) => Model { memory: saved(m.memory, cur, v), ..m },
                Option::None => m,
            };
            (
                Model { phase: PhaseModel::RaiseCur { cur }, ..m1 },
                Action::SetVolume { pid: cur, level: FULL_VOLUME },
            )
        },
        (PhaseModel::RaiseCur { cur: _ }, EventModel::SetDone { ok: _ }) => {
            (Model { phase: PhaseModel::Idle, ..m }, Action::Idle)
        },
        (PhaseModel::RestoreCur { cur }, EventModel::SetDone { ok }) => {
            if ok {
                (
                    Model { phase: PhaseModel::Idle, memory: m.memory.remove(cur), ..m },
                    Action::Idle,
                )
            } else {
                (Model { phase: PhaseModel::Idle, ..m }, Action::Idle)
            }
        },
        _ => (m, Action::Idle),
    }
}

/// The ducking engine. It owns all mutable state: the volume memory and the
/// focus history live only here and change only inside `step`.
pub struct Engine {
    targets: TargetMap,
    memory: VolumeMemory,
    history: Option<u32>,
    phase: Phase,
}

impl View for Engine {
    type V = Model;

    closed spec fn view(&self) -> Model {
        Model {
            targets: self.targets@,
            memory: self.memory@,
            history: self.history,
            phase: self.phase.model(),
        }
    }
}

impl Engine {
    /// The engine's own state is well formed.
    pub closed spec fn wf(&self) -> bool {
        &&& self.targets.wf()
        &&& self.memory.wf()
    }

    /// A fresh engine: no volume remembered, no focus seen yet.
    pub fn new(targets: TargetMap) -> (r: Engine)
        requires
            targets.wf(),
        ensures
            r.wf(),
            r@.targets == targets@,
            r@.memory =~= Map::<u32, u32>::empty(),
            r@.history == Option::<u32>::None,
            r@.phase == PhaseModel::Idle,
    {
        Engine { targets, memory: VolumeMemory::new(), history: Option::None, phase: Phase::Idle }
    }

    /// The process observed as focused at the previous observation.
    pub fn history(&self) -> (r: Option<u32>)
        ensures
            r == self@.history,
    {
        self.history
    }

    /// The volume remembered for `pid`, if any.
    pub fn remembered(&self, pid: u32) -> (r: Option<u32>)
        requires
            self.wf(),
        ensures
            r == if self@.memory.dom().contains(pid) {
                Option::Some(self@.memory[pid])
            } else {
                Option::None::<u32>
            },
    {
        self.memory.get(pid)
    }

    /// Turn to the newly focused process, as `current_side` describes.
    fn enter_current_side(&mut self, cur: u32, cur_name: &Vec<u8>) -> (r: Action)
        requires
            old(self).wf(),
        ensures
            final(self).wf(),
            final(self)@ == current_side(old(self)@, cur, cur_name@).0,
            r == current_side(old(self)@, cur, cur_name@).1,
            (r matches Action::SetVolume { pid: p, level } ==> level <= FULL_VOLUME),
    {
        if self.memory.contains(cur) {
            proof {
                self.memory.lemma_wf_values();
            }
            let level = match self.memory.get(cur) {
                Option::Some(v) => v,
                Option::None => 0,
            };
            self.phase = Phase::RestoreCur { cur };
            Action::SetVolume { pid: cur, level }
        } else if self.targets.is_target(cur_name) {
            self.phase = Phase::SaveCur { cur };
            Action::ReadVolume { pid: cur }
        } else {
            self.phase = Phase::Idle;
            Action::Idle
        }
    }

    /// Feed one event to the engine and get the next action to perform.
    /// The behaviour is exactly `step_model` on the engine's model.
    pub fn step(&mut self, ev: Event) -> (r: Action)
        requires
            old(self).wf(),
            valid_event(ev@),
        ensures
            final(self).wf(),
            final(self)@ == step_model(old(self)@, ev@).0,
            r == step_model(old(self)@, ev@).1,
            (r matches Action::SetVolume { pid: p, level } ==> level <= FULL_VOLUME),
    {
        let mut ph = Phase::Idle;
        core::mem::swap(&mut ph, &mut self.phase);
        match (ph, ev) {
            (Phase::Idle, Event::Focus { pid, name }) => match name {
                Option::None => {
                    self.history = Option::Some(pid);
                    Action::Idle
                },
                Option::Some(n) => {
                    let same = match self.history {
                        Option::Some(h) => h == pid,
                        Option::None => false,
                    };
                    if same {
                        Action::Idle
                    } else {
                        let prev_opt = self.history;
                        self.history = Option::Some(pid);
                        match prev_opt {
                            Option::Some(prev) => {
                                if !self.memory.contains(prev) {
                                    self.phase = Phase::SavePrev { cur: pid, cur_name: n, prev };
                                    Action::ReadVolume { pid: prev }
                                } else {
                                    self.phase = Phase::NamePrev { cur: pid, cur_name: n, prev };
                                    Action::ResolveName { pid: prev }
                                }
                            },
                            Option::None => self.enter_current_side(pid, &n),
                        }
                    }
                },
            },
            (Phase::SavePrev { cur, cur_name, prev }, Event::VolumeRead { level }) => {
                match level {
                    Option::Some(v) => self.memory.save(prev, v),
                    Option::None => {},
                }
                self.phase = Phase::NamePrev { cur, cur_name, prev };
                Action::ResolveName { pid: prev }
            },
            (Phase::NamePrev { cur, cur_name, prev }, Event::NameResolved { name }) => match name {
                Option::Some(pn) => {
                    let level = self.targets.duck_level(&pn);
                    self.phase = Phase::DuckPrev { cur, cur_name, prev };
                    Action::SetVolume { pid: prev, level }
                },
                Option::None => self.enter_current_side(cur, &cur_name),
            },
            (Phase::DuckPrev { cur, cur_name, prev: _ }, Event::SetDone { ok: _ }) => {
                self.enter_current_side(cur, &cur_name)
            },
            (Phase::SaveCur { cur }, Event::VolumeRead { level }) => {
                match level {
                    Option::Some(v) => self.memory.save(cur, v),
                    Option::None => {},
                }
                self.phase = Phase::RaiseCur { cur };
                Action::SetVolume { pid: cur, level: FULL_VOLUME }
            },
            (Phase::RaiseCur { cur: _ }, Event::SetDone { ok: _ }) => Action::Idle,
            (Phase::RestoreCur { cur }, Event::SetDone { ok }) => {
                if ok {
                    self.memory.remove(cur);
                }
                Action::Idle
            },
            (other, _) => {
                self.phase = other;
                Action::Idle
            },
        }
    }
}

} // verus!
