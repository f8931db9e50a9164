use zombies_weapon_tool::config::{Config, ExecutionMode};
use zombies_weapon_tool::engine::{
    build_slots, jitter, jitter_by, next_chunk, ordered_slots, shooting, shuffle, wait_step,
    Draws, Engine, EngineMsg, Listener, LoopAction, MacroLoop, Round, Tick, WaitStep, DEBOUNCE_NS,
};
use zombies_weapon_tool::keymap::{InputEvent, Key};

fn cfg() -> Config {
    Config::default()
}

fn list(names: &[&str]) -> Vec<String> {
    names.iter().map(|s| s.to_string()).collect()
}

#[test]
fn build_slots_respects_order_and_filters_empty() {
    let mut c = cfg();
    c.execution_order = "AB".into();
    c.weapon_slot1 = "2".into();
    c.weapon_slot2 = "3".into();
    c.weapon_slot3 = "4".into();
    let mut rng = rand::rng();
    assert_eq!(build_slots(&c, &mut rng), vec!["2".to_string(), "3".to_string()]);
}

#[test]
fn build_slots_filters_empty_bindings() {
    let mut c = cfg();
    c.execution_order = "ABC".into();
    c.weapon_slot1 = "2".into();
    c.weapon_slot2 = String::new();
    c.weapon_slot3 = "4".into();
    let mut rng = rand::rng();
    assert_eq!(build_slots(&c, &mut rng), vec!["2".to_string(), "4".to_string()]);
}

#[test]
fn build_slots_returns_empty_when_all_unbound() {
    let c = Config::default();
    let mut c = c;
    c.weapon_slot1.clear();
    c.weapon_slot2.clear();
    c.weapon_slot3.clear();
    let mut rng = rand::rng();
    assert!(build_slots(&c, &mut rng).is_empty());
}

#[test]
fn build_slots_deduplicates_repeated_order_chars() {
    let mut c = cfg();
    c.execution_order = "AABB".into();
    c.weapon_slot1 = "2".into();
    c.weapon_slot2 = "3".into();
    let mut rng = rand::rng();
    let slots = build_slots(&c, &mut rng);
    assert_eq!(slots, vec!["2".to_string(), "3".to_string()]);
}

#[test]
fn build_slots_ignores_invalid_order_chars() {
    let mut c = cfg();
    c.execution_order = "AXB".into();
    c.weapon_slot1 = "2".into();
    c.weapon_slot2 = "3".into();
    let mut rng = rand::rng();
    let slots = build_slots(&c, &mut rng);
    assert_eq!(slots, vec!["2".to_string(), "3".to_string()]);
}

#[test]
fn jitter_within_range() {
    let mut rng = rand::rng();
    for _ in 0..200 {
        let ms = jitter(300, 30, &mut rng) as i64;
        assert!((270..=330).contains(&ms), "jitter {ms} out of range");
    }
}

#[test]
fn jitter_never_zero_when_offset_exceeds_base() {
    let mut rng = rand::rng();
    for _ in 0..500 {
        let ms = jitter(10, 50, &mut rng);
        assert!(ms >= 1, "jitter returned 0ms, busy-loop risk");
    }
}

#[test]
fn jitter_never_zero_with_zero_base() {
    let mut rng = rand::rng();
    for _ in 0..100 {
        assert!(jitter(0, 0, &mut rng) >= 1);
    }
}

#[test]
fn stop_on_idle_engine_returns_false() {
    let mut engine = Engine::new(Config::default());
    assert!(!engine.stop());
    assert!(!engine.running());
}

#[test]
fn the_switch_of_the_engine() {
    let mut e = Engine::new(cfg());
    assert!(e.start());
    assert!(!e.start());
    assert!(e.running());
    assert!(e.stop());
    assert!(!e.stop());
    assert!(e.toggle());
    assert!(!e.toggle());
    assert!(!e.running());
}

#[test]
fn jitter_varies_both_ways() {
    assert_eq!(jitter_by(300, 30, true), 330);
    assert_eq!(jitter_by(300, 30, false), 270);
    assert_eq!(jitter_by(10, 10, false), 1);
    assert_eq!(jitter_by(0, 0, true), 1);
    assert_eq!(jitter_by(u64::MAX, 5, true), u64::MAX);
    // Over many draws both directions and more than one difference occur.
    let mut rng = rand::rng();
    let drawn: Vec<u64> = (0..2000).map(|_| jitter(100, 50, &mut rng)).collect();
    assert!(drawn.iter().any(|&ms| ms < 100));
    assert!(drawn.iter().any(|&ms| ms > 100));
    assert!(drawn.iter().all(|&ms| (50..=150).contains(&ms)));
}

#[test]
fn a_shuffle_exchanges_by_its_picks() {
    let s = list(&["a", "b", "c"]);
    assert_eq!(shuffle(s.clone(), &vec![0, 0]), list(&["b", "c", "a"]));
    assert_eq!(shuffle(s.clone(), &vec![2, 1]), list(&["a", "b", "c"]));
    assert_eq!(shuffle(s, &vec![1, 0]), list(&["c", "a", "b"]));
    assert_eq!(shuffle(list(&[]), &vec![]), list(&[]));
}

#[test]
fn a_random_round_keeps_all_weapons() {
    let mut c = cfg();
    c.random_execution = true;
    let mut rng = rand::rng();
    let mut orders: Vec<Vec<String>> = Vec::new();
    for _ in 0..300 {
        let slots = build_slots(&c, &mut rng);
        let mut sorted = slots.clone();
        sorted.sort();
        assert_eq!(sorted, ordered_slots(&c));
        if !orders.contains(&slots) {
            orders.push(slots);
        }
    }
    assert_eq!(orders.len(), 6);
}

#[test]
fn the_order_decides_the_slots() {
    let mut c = cfg();
    c.execution_order = "CAB".into();
    assert_eq!(ordered_slots(&c), list(&["4", "2", "3"]));
    c.execution_order = "B汉B".into();
    assert_eq!(ordered_slots(&c), list(&["3"]));
}

#[test]
fn toggling_is_debounced() {
    let mut e = Engine::new(cfg());
    let mut l = Listener::new(0);
    let press = InputEvent::KeyPress(Key::Alt);
    let release = InputEvent::KeyRelease(Key::Alt);
    assert_eq!(l.hear(&mut e, false, press, DEBOUNCE_NS - 1), None);
    assert_eq!(l.hear(&mut e, false, press, DEBOUNCE_NS), Some(EngineMsg::Toggled(true)));
    assert!(e.running());
    assert_eq!(l.hear(&mut e, false, release, DEBOUNCE_NS + 5), None);
    assert_eq!(l.hear(&mut e, false, press, 2 * DEBOUNCE_NS - 1), None);
    assert_eq!(l.hear(&mut e, false, press, 2 * DEBOUNCE_NS), Some(EngineMsg::Toggled(false)));
    assert!(!e.running());
}

#[test]
fn holding_follows_the_key() {
    let mut c = cfg();
    c.execution_mode = ExecutionMode::Hold;
    let mut e = Engine::new(c);
    let mut l = Listener::new(0);
    let press = InputEvent::KeyPress(Key::Alt);
    assert_eq!(l.hear(&mut e, false, press, 1), Some(EngineMsg::Toggled(true)));
    assert_eq!(l.hear(&mut e, false, press, 2), None);
    assert_eq!(
        l.hear(&mut e, false, InputEvent::KeyRelease(Key::Alt), 3),
        Some(EngineMsg::Toggled(false))
    );
    assert!(!e.running());
}

#[test]
fn the_quick_switch_key_is_debounced() {
    let mut e = Engine::new(cfg());
    let mut l = Listener::new(0);
    let press = InputEvent::KeyPress(Key::AltGr);
    assert_eq!(l.hear(&mut e, false, press, DEBOUNCE_NS), Some(EngineMsg::RouterNext));
    assert_eq!(l.hear(&mut e, false, press, DEBOUNCE_NS + 1), None);
    assert_eq!(l.hear(&mut e, false, InputEvent::KeyPress(Key::KeyG), u64::MAX), None);
}

#[test]
fn capturing_keeps_the_engine_off() {
    let mut e = Engine::new(cfg());
    let mut l = Listener::new(0);
    let k = Key::Alt;
    assert_eq!(
        l.hear(&mut e, true, InputEvent::KeyPress(k), u64::MAX),
        Some(EngineMsg::CaptureKey(k))
    );
    assert_eq!(l.hear(&mut e, true, InputEvent::KeyRelease(k), u64::MAX), None);
    assert!(!e.running());
}

const MS: u64 = 1_000_000;

fn act(t: Tick) -> (bool, Option<String>, Option<u128>) {
    match t {
        Tick::Act { shoot, switch, until } => (shoot, switch, until),
        Tick::Pause => panic!("a pause"),
    }
}

#[test]
fn a_round_shoots_at_once_and_switches_in_turn() {
    assert_eq!(shooting(), "MB2");
    let slots = || list(&["2", "3"]);
    let mut r = Round::starting(10 * MS, 100);
    let t = act(r.act(50, 10 * MS, 50, slots(), 100));
    assert_eq!(t, (true, None, Some(60 * MS as u128)));
    let t = act(r.act(50, 60 * MS, 40, slots(), 100));
    assert_eq!(t, (true, None, Some(100 * MS as u128)));
    let t = act(r.act(50, 110 * MS, 50, slots(), 100));
    assert_eq!(t, (true, Some("2".to_string()), Some(160 * MS as u128)));
    let t = act(r.act(50, 210 * MS, 50, slots(), 100));
    assert_eq!(t.1, Some("3".to_string()));
    let t = act(r.act(50, 310 * MS, 50, slots(), 100));
    assert_eq!(t.1, Some("2".to_string()));
}

#[test]
fn a_round_without_weapons_ends() {
    let mut r = Round::starting(0, 1);
    let t = act(r.act(50, MS, 50, list(&[]), 100));
    assert_eq!(t, (true, None, None));
}

#[test]
fn a_zero_interval_pauses() {
    let mut r = Round::starting(0, 1);
    assert!(matches!(r.act(0, 5 * MS, 1, list(&["2"]), 1), Tick::Pause));
    r.restart(7 * MS, 3);
    assert_eq!(r.next_shot, 7 * MS as u128);
    assert_eq!(r.next_switch, 10 * MS as u128);
}

#[test]
fn the_loop_shoots_and_switches() {
    let c = cfg();
    let mut e = Engine::new(cfg());
    assert!(e.start());
    let mut rng = rand::rng();
    let mut now: u64 = 5 * MS;
    let mut l = MacroLoop::new(e.run);
    let mut switched: Vec<String> = Vec::new();
    let mut shots = 0;
    for _ in 0..600 {
        match l.next(&e, now, &mut rng) {
            LoopAction::Tap(s) if s == "MB2" => shots += 1,
            LoopAction::Tap(s) => switched.push(s),
            LoopAction::Until(t) => {
                assert!(t > now as u128);
                now = t as u64;
            }
            other => panic!("not expected: {other:?}"),
        }
    }
    assert!(shots > switched.len());
    assert!(switched.len() > 10);
    for (i, s) in switched.iter().enumerate() {
        assert_eq!(s, &ordered_slots(&c)[i % 3]);
    }
}

#[test]
fn the_loop_ends_when_the_engine_is_off() {
    let mut e = Engine::new(cfg());
    let mut rng = rand::rng();
    let mut l = MacroLoop::new(e.run);
    assert!(matches!(l.next(&e, MS, &mut rng), LoopAction::End));
    e.start();
    let mut l = MacroLoop::new(e.run);
    assert!(matches!(l.next(&e, MS, &mut rng), LoopAction::Tap(_)));
    e.stop();
    assert!(matches!(l.next(&e, MS, &mut rng), LoopAction::End));
    // A zero interval makes it pause in short stretches.
    e.start();
    e.cfg.shoot_interval_ms = 0;
    let mut l = MacroLoop::new(e.run);
    for _ in 0..5 {
        assert!(matches!(l.next(&e, MS, &mut rng), LoopAction::Rest(50)));
    }
    e.stop();
    assert!(matches!(l.next(&e, MS, &mut rng), LoopAction::End));
}

#[test]
fn a_restart_leaves_one_loop() {
    let mut e = Engine::new(cfg());
    let mut rng = rand::rng();
    assert!(e.start());
    let mut old = MacroLoop::new(e.run);
    assert!(matches!(old.next(&e, MS, &mut rng), LoopAction::Tap(_)));
    assert!(matches!(old.next(&e, MS, &mut rng), LoopAction::Until(_)));
    // Off and on again before the loop has looked: a shot is due for both.
    assert!(e.stop());
    assert!(e.start());
    let mut new = MacroLoop::new(e.run);
    assert_ne!(old.run, new.run);
    let later = 10_000 * MS;
    assert!(matches!(old.next(&e, later, &mut rng), LoopAction::End));
    assert!(matches!(new.next(&e, later, &mut rng), LoopAction::Tap(s) if s == "MB2"));
    assert!(matches!(old.next(&e, later, &mut rng), LoopAction::End));
    // A call that does not switch begins no run.
    let run = e.run;
    assert!(!e.start());
    assert_eq!(e.run, run);
    e.run = u64::MAX;
    e.stop();
    assert!(e.toggle());
    assert_eq!(e.run, 0);
}

#[test]
fn a_pause_ends_with_a_shot() {
    let draws = || Draws { first_ms: 3, shot_ms: 50, slots: list(&[]), switch_ms: 100 };
    let mut l = MacroLoop::new(1);
    for _ in 0..4 {
        assert!(matches!(l.step(true, 0, MS, draws()), LoopAction::Rest(50)));
    }
    let a = l.step(true, 50, 10 * MS, draws());
    assert!(matches!(a, LoopAction::Tap(s) if s == "MB2"));
    assert_eq!(l.round.next_switch, 13 * MS as u128);
    assert_eq!(l.round.next_shot, 60 * MS as u128);
    let a = l.step(true, 50, 10 * MS, draws());
    assert!(matches!(a, LoopAction::Until(t) if t == 13 * MS as u128));
    // Without a weapon the round ends, and the next one starts with a shot.
    let a = l.step(true, 50, 13 * MS, draws());
    assert!(matches!(a, LoopAction::Tap(s) if s == "MB2"));
}

#[test]
fn a_wait_sleeps_then_spins() {
    let end = 10 * MS as u128;
    assert_eq!(wait_step(7 * MS, end), WaitStep::Sleep);
    assert_eq!(wait_step(8 * MS, end), WaitStep::Spin);
    assert_eq!(wait_step(10 * MS - 1, end), WaitStep::Spin);
    assert_eq!(wait_step(10 * MS, end), WaitStep::Done);
    assert_eq!(wait_step(0, MS as u128), WaitStep::Sleep);
}

#[test]
fn a_pause_is_cut_into_chunks() {
    assert_eq!(next_chunk(200, true), Some(50));
    assert_eq!(next_chunk(30, true), Some(30));
    assert_eq!(next_chunk(0, true), None);
    assert_eq!(next_chunk(200, false), None);
}
