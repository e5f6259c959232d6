use focus_duck::engine::{Action, Engine, Event};
use focus_duck::targets::TargetMap;

fn firefox_map() -> TargetMap {
    let mut t = TargetMap::new();
    t.insert(b"firefox".to_vec(), 300);
    t
}

#[test]
fn scenario_a_target_gains_focus() {
    let mut e = Engine::new(firefox_map());
    // Process 200 ("notes.exe") is focused first; nothing has to change.
    let a = e.step(Event::Focus { pid: 200, name: Some(b"notes.exe".to_vec()) });
    assert_eq!(a, Action::Idle);
    assert_eq!(e.history(), Some(200));
    // Process 100 ("firefox.exe") gains focus while 200 plays at 0.8.
    let a = e.step(Event::Focus { pid: 100, name: Some(b"firefox.exe".to_vec()) });
    assert_eq!(a, Action::ReadVolume { pid: 200 });
    let a = e.step(Event::VolumeRead { level: Some(800) });
    // 200's live volume was read once and stored.
    assert_eq!(e.remembered(200), Some(800));
    assert_eq!(a, Action::ResolveName { pid: 200 });
    let a = e.step(Event::NameResolved { name: Some(b"notes.exe".to_vec()) });
    // "notes" matches no fragment: ducked to the default level 0.1.
    assert_eq!(a, Action::SetVolume { pid: 200, level: 100 });
    let a = e.step(Event::SetDone { ok: true });
    // 100 has no remembered volume: read it first, then raise to full.
    assert_eq!(a, Action::ReadVolume { pid: 100 });
    let a = e.step(Event::VolumeRead { level: Some(1000) });
    assert_eq!(a, Action::SetVolume { pid: 100, level: 1000 });
    let a = e.step(Event::SetDone { ok: true });
    assert_eq!(a, Action::Idle);
    assert_eq!(e.history(), Some(100));
}

#[test]
fn scenario_b_focus_returns_to_stored_process() {
    let mut e = Engine::new(firefox_map());
    // Reach the state after scenario A: memory {200: 800, 100: 1000}.
    e.step(Event::Focus { pid: 200, name: Some(b"notes.exe".to_vec()) });
    e.step(Event::Focus { pid: 100, name: Some(b"firefox.exe".to_vec()) });
    e.step(Event::VolumeRead { level: Some(800) });
    e.step(Event::NameResolved { name: Some(b"notes.exe".to_vec()) });
    e.step(Event::SetDone { ok: true });
    e.step(Event::VolumeRead { level: Some(1000) });
    e.step(Event::SetDone { ok: true });
    // Focus returns to 200, which has a stored entry of 0.8.
    let a = e.step(Event::Focus { pid: 200, name: Some(b"notes.exe".to_vec()) });
    // 100 already has a stored volume, so no second read: name first.
    assert_eq!(a, Action::ResolveName { pid: 100 });
    let a = e.step(Event::NameResolved { name: Some(b"firefox.exe".to_vec()) });
    // 100 loses focus and is a target: ducked to 0.3 per the map.
    assert_eq!(a, Action::SetVolume { pid: 100, level: 300 });
    assert_eq!(e.remembered(100), Some(1000));
    let a = e.step(Event::SetDone { ok: true });
    // 200 is set back to 0.8 and its memory entry removed.
    assert_eq!(a, Action::SetVolume { pid: 200, level: 800 });
    let a = e.step(Event::SetDone { ok: true });
    assert_eq!(a, Action::Idle);
    assert_eq!(e.remembered(200), None);
    assert_eq!(e.history(), Some(200));
}

#[test]
fn scenario_c_failed_write_changes_nothing_for_the_process() {
    let mut e = Engine::new(firefox_map());
    // 100 plays ducked with a stored entry of 0.9; 300 is focused.
    e.step(Event::Focus { pid: 300, name: Some(b"term.exe".to_vec()) });
    e.step(Event::Focus { pid: 100, name: Some(b"firefox.exe".to_vec()) });
    e.step(Event::VolumeRead { level: None });
    e.step(Event::NameResolved { name: None });
    e.step(Event::VolumeRead { level: Some(900) });
    e.step(Event::SetDone { ok: true });
    e.step(Event::Focus { pid: 300, name: Some(b"term.exe".to_vec()) });
    e.step(Event::NameResolved { name: Some(b"firefox.exe".to_vec()) });
    e.step(Event::SetDone { ok: true });
    assert_eq!(e.remembered(100), Some(900));
    // Focus returns to 100 but its session is closed: the restore fails.
    let a = e.step(Event::Focus { pid: 100, name: Some(b"firefox.exe".to_vec()) });
    assert_eq!(a, Action::ReadVolume { pid: 300 });
    let a = e.step(Event::VolumeRead { level: Some(500) });
    assert_eq!(a, Action::ResolveName { pid: 300 });
    let a = e.step(Event::NameResolved { name: Some(b"term.exe".to_vec()) });
    assert_eq!(a, Action::SetVolume { pid: 300, level: 100 });
    let a = e.step(Event::SetDone { ok: true });
    assert_eq!(a, Action::SetVolume { pid: 100, level: 900 });
    let a = e.step(Event::SetDone { ok: false });
    assert_eq!(a, Action::Idle);
    // The memory entry for 100 is untouched; history still advanced.
    assert_eq!(e.remembered(100), Some(900));
    assert_eq!(e.history(), Some(100));
}

#[test]
fn repeated_focus_is_idempotent() {
    let mut e = Engine::new(firefox_map());
    e.step(Event::Focus { pid: 200, name: Some(b"notes.exe".to_vec()) });
    e.step(Event::Focus { pid: 100, name: Some(b"firefox.exe".to_vec()) });
    e.step(Event::VolumeRead { level: Some(800) });
    e.step(Event::NameResolved { name: Some(b"notes.exe".to_vec()) });
    e.step(Event::SetDone { ok: true });
    e.step(Event::VolumeRead { level: Some(1000) });
    e.step(Event::SetDone { ok: true });
    // Observing the focused process again asks for no audio call at all.
    let a = e.step(Event::Focus { pid: 100, name: Some(b"firefox.exe".to_vec()) });
    assert_eq!(a, Action::Idle);
    let a = e.step(Event::Focus { pid: 100, name: Some(b"firefox.exe".to_vec()) });
    assert_eq!(a, Action::Idle);
    assert_eq!(e.remembered(100), Some(1000));
    assert_eq!(e.remembered(200), Some(800));
    assert_eq!(e.history(), Some(100));
}

#[test]
fn save_before_duck_reads_once_and_stores_live_value() {
    let mut e = Engine::new(firefox_map());
    e.step(Event::Focus { pid: 200, name: Some(b"notes.exe".to_vec()) });
    // First contact with 200 as the process losing focus: one read...
    let a = e.step(Event::Focus { pid: 300, name: Some(b"term.exe".to_vec()) });
    assert_eq!(a, Action::ReadVolume { pid: 200 });
    // ...whose result is stored unchanged before any write to 200.
    let a = e.step(Event::VolumeRead { level: Some(640) });
    assert_eq!(e.remembered(200), Some(640));
    assert_eq!(a, Action::ResolveName { pid: 200 });
    let a = e.step(Event::NameResolved { name: Some(b"notes.exe".to_vec()) });
    assert_eq!(a, Action::SetVolume { pid: 200, level: 100 });
}

#[test]
fn no_double_store_keeps_first_saved_volume() {
    let mut e = Engine::new(firefox_map());
    // 200 is ducked with 0.8 stored; focus then returns but the restore
    // fails, so the entry must survive.
    e.step(Event::Focus { pid: 200, name: Some(b"notes.exe".to_vec()) });
    e.step(Event::Focus { pid: 300, name: Some(b"term.exe".to_vec()) });
    e.step(Event::VolumeRead { level: Some(800) });
    e.step(Event::NameResolved { name: Some(b"notes.exe".to_vec()) });
    e.step(Event::SetDone { ok: true });
    let a = e.step(Event::Focus { pid: 200, name: Some(b"notes.exe".to_vec()) });
    assert_eq!(a, Action::ReadVolume { pid: 300 });
    e.step(Event::VolumeRead { level: Some(500) });
    e.step(Event::NameResolved { name: Some(b"term.exe".to_vec()) });
    let a = e.step(Event::SetDone { ok: true });
    assert_eq!(a, Action::SetVolume { pid: 200, level: 800 });
    e.step(Event::SetDone { ok: false });
    assert_eq!(e.remembered(200), Some(800));
    // Focus moves away again: 200 already has an entry, so the engine asks
    // for no fresh read and the stored 0.8 is not overwritten with the
    // ducked level.
    let a = e.step(Event::Focus { pid: 300, name: Some(b"term.exe".to_vec()) });
    assert_eq!(a, Action::ResolveName { pid: 200 });
    let a = e.step(Event::NameResolved { name: Some(b"notes.exe".to_vec()) });
    assert_eq!(a, Action::SetVolume { pid: 200, level: 100 });
    e.step(Event::SetDone { ok: true });
    e.step(Event::SetDone { ok: true });
    assert_eq!(e.remembered(200), Some(800));
}

#[test]
fn unresolved_name_still_advances_history() {
    let mut e = Engine::new(firefox_map());
    let a = e.step(Event::Focus { pid: 42, name: None });
    assert_eq!(a, Action::Idle);
    assert_eq!(e.history(), Some(42));
    assert_eq!(e.remembered(42), None);
}

#[test]
fn failed_read_stores_nothing_and_retries_next_cycle() {
    let mut e = Engine::new(firefox_map());
    e.step(Event::Focus { pid: 200, name: Some(b"notes.exe".to_vec()) });
    let a = e.step(Event::Focus { pid: 300, name: Some(b"term.exe".to_vec()) });
    assert_eq!(a, Action::ReadVolume { pid: 200 });
    let a = e.step(Event::VolumeRead { level: None });
    assert_eq!(e.remembered(200), None);
    assert_eq!(a, Action::ResolveName { pid: 200 });
    e.step(Event::NameResolved { name: Some(b"notes.exe".to_vec()) });
    e.step(Event::SetDone { ok: true });
    // 200 regains and loses focus again: with no entry stored, the engine
    // asks for a fresh read.
    e.step(Event::Focus { pid: 200, name: Some(b"notes.exe".to_vec()) });
    e.step(Event::VolumeRead { level: Some(450) });
    e.step(Event::NameResolved { name: Some(b"term.exe".to_vec()) });
    e.step(Event::SetDone { ok: true });
    let a = e.step(Event::Focus { pid: 300, name: Some(b"term.exe".to_vec()) });
    assert_eq!(a, Action::ReadVolume { pid: 200 });
}

#[test]
fn unresolved_previous_name_skips_the_duck() {
    let mut e = Engine::new(firefox_map());
    e.step(Event::Focus { pid: 200, name: Some(b"notes.exe".to_vec()) });
    let a = e.step(Event::Focus { pid: 300, name: Some(b"term.exe".to_vec()) });
    assert_eq!(a, Action::ReadVolume { pid: 200 });
    let a = e.step(Event::VolumeRead { level: Some(700) });
    assert_eq!(a, Action::ResolveName { pid: 200 });
    // 200 exited meanwhile: no name, so it is not ducked; the cycle goes
    // straight on to the focused process, which is no target either.
    let a = e.step(Event::NameResolved { name: None });
    assert_eq!(a, Action::Idle);
    assert_eq!(e.history(), Some(300));
}

#[test]
fn event_outside_the_cycle_is_ignored() {
    let mut e = Engine::new(firefox_map());
    e.step(Event::Focus { pid: 200, name: Some(b"notes.exe".to_vec()) });
    let a = e.step(Event::SetDone { ok: true });
    assert_eq!(a, Action::Idle);
    let a = e.step(Event::VolumeRead { level: Some(500) });
    assert_eq!(a, Action::Idle);
    assert_eq!(e.remembered(200), None);
    assert_eq!(e.history(), Some(200));
}

#[test]
fn first_observation_has_no_previous_process() {
    let mut e = Engine::new(firefox_map());
    // The very first focused process is a target with no entry: it is read
    // and raised, and no other process is touched.
    let a = e.step(Event::Focus { pid: 100, name: Some(b"firefox.exe".to_vec()) });
    assert_eq!(a, Action::ReadVolume { pid: 100 });
    let a = e.step(Event::VolumeRead { level: Some(750) });
    assert_eq!(e.remembered(100), Some(750));
    assert_eq!(a, Action::SetVolume { pid: 100, level: 1000 });
    let a = e.step(Event::SetDone { ok: true });
    assert_eq!(a, Action::Idle);
}

#[test]
fn matching_is_case_insensitive_substring() {
    let mut t = TargetMap::new();
    t.insert(b"FireFox".to_vec(), 300);
    assert!(t.is_target(&b"FIREFOX.EXE".to_vec()));
    assert!(t.is_target(&b"abc-firefox-1".to_vec()));
    assert!(!t.is_target(&b"fire fox".to_vec()));
    assert_eq!(t.duck_level(&b"Firefox.exe".to_vec()), 300);
    assert_eq!(t.duck_level(&b"notes.exe".to_vec()), 100);
}

#[test]
fn first_matching_fragment_wins() {
    let mut t = TargetMap::new();
    t.insert(b"fire".to_vec(), 250);
    t.insert(b"firefox".to_vec(), 300);
    assert_eq!(t.duck_level(&b"firefox.exe".to_vec()), 250);
}

#[test]
fn repeated_fragment_keeps_first_level() {
    let mut t = TargetMap::new();
    t.insert(b"firefox".to_vec(), 300);
    t.insert(b"FIREFOX".to_vec(), 900);
    assert_eq!(t.len(), 1);
    assert_eq!(t.duck_level(&b"firefox.exe".to_vec()), 300);
}
