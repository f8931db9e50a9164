//! The macro engine: its switch, the global hotkeys, and the schedule of the
//! shots and weapon switches.
//!
//! Times are counted in nanoseconds from a fixed moment before the program's
//! first reading of the clock. The functions that draw random numbers hand the
//! outcome to a function that is exact for every outcome.

use rand::rngs::ThreadRng;
use vstd::prelude::*;

use crate::config;
use crate::config::{Config, ConfigView, ExecutionMode};
use crate::keymap;
use crate::keymap::{InputEvent, Key};
use crate::random;
use crate::text;

verus! {

/// What the background threads tell the main thread.
#[derive(Clone, Copy, PartialEq, Eq, Debug, Structural)]
pub enum EngineMsg {
    /// A hotkey switched the engine on or off.
    Toggled(bool),
    /// A key was pressed while a binding is being captured.
    CaptureKey(Key),
    /// The hotkey for the next configuration was pressed.
    RouterNext,
    /// The active configuration file was changed from outside.
    ConfigReload,
}

/// The switch of the engine, the number of its current or last run, and the
/// configuration that the macro loop reads. A macro loop acts for one run only.
pub struct Engine {
    pub running: bool,
    pub run: u64,
    pub cfg: Config,
}

/// The number of the run after the one with the given number. The numbers start
/// over once the counter is full.
pub open spec fn next_run(run: u64) -> u64 {
    if run == u64::MAX {
        0
    } else {
        (run + 1) as u64
    }
}

impl Engine {
    /// With the switch in the given position: switching on begins a new run.
    pub open spec fn switched(self, on: bool) -> Engine {
        Engine {
            running: on,
            run: if on && !self.running {
                next_run(self.run)
            } else {
                self.run
            },
            ..self
        }
    }

    /// An engine that is off and has not run yet.
    pub fn new(cfg: Config) -> (r: Self)
        ensures
            r == (Engine { running: false, run: 0, cfg }),
    {
        Engine { running: false, run: 0, cfg }
    }

    pub fn running(&self) -> (r: bool)
        ensures
            r == self.running,
    {
        self.running
    }

    /// Switches on. Tells whether this call did it: a macro loop is started
    /// exactly then, for the new run. A loop of an earlier run that has not
    /// ended yet does nothing more, so no two loops act.
    pub fn start(&mut self) -> (r: bool)
        ensures
            r == !old(self).running,
            r ==> final(self).run != old(self).run,
            *final(self) == old(self).switched(true),
    {
        if self.running {
            false
        } else {
            self.running = true;
            self.run = if self.run == u64::MAX {
                0
            } else {
                self.run + 1
            };
            true
        }
    }

    /// Switches off. Tells whether the engine was on.
    pub fn stop(&mut self) -> (r: bool)
        ensures
            r == old(self).running,
            *final(self) == old(self).switched(false),
    {
        let was = self.running;
        self.running = false;
        was
    }

    /// Flips the switch and gives its new position. A macro loop is started for
    /// the new run where that is on.
    pub fn toggle(&mut self) -> (r: bool)
        ensures
            r == !old(self).running,
            *final(self) == old(self).switched(r),
    {
        if self.running {
            self.running = false;
            false
        } else {
            self.start()
        }
    }
}

// ---------------------------------------------------------------------------
// Hotkeys
// ---------------------------------------------------------------------------

/// The time within which a further press of a hotkey is taken for a repeat.
pub const DEBOUNCE_NS: u64 = 300_000_000;

/// When the hotkeys last had an effect.
#[derive(Clone, Copy, PartialEq, Eq, Debug, Structural)]
pub struct Listener {
    pub last_toggle: u64,
    pub last_router: u64,
}

/// What an input event does to the listener and to the switch, and the message
/// that it gives.
pub struct Heard {
    pub listener: Listener,
    pub running: bool,
    pub msg: Option<EngineMsg>,
}

/// The key of an event, and whether it was pressed.
pub open spec fn key_of(event: InputEvent) -> Option<(Key, bool)> {
    match event {
        InputEvent::KeyPress(k) => Some((k, true)),
        InputEvent::KeyRelease(k) => Some((k, false)),
        _ => None,
    }
}

/// Enough time has passed since the last effect.
pub open spec fn settled(now: u64, last: u64) -> bool {
    now - last >= DEBOUNCE_NS
}

/// What the execution hotkey does.
pub open spec fn on_execution_key(
    l: Listener,
    running: bool,
    mode: ExecutionMode,
    press: bool,
    now: u64,
) -> Heard {
    match mode {
        ExecutionMode::Hold => Heard {
            listener: l,
            running: press,
            msg: if running != press {
                Some(EngineMsg::Toggled(press))
            } else {
                None
            },
        },
        ExecutionMode::Toggle => if press && settled(now, l.last_toggle) {
            Heard {
                listener: Listener { last_toggle: now, ..l },
                running: !running,
                msg: Some(EngineMsg::Toggled(!running)),
            }
        } else {
            Heard { listener: l, running, msg: None }
        },
    }
}

/// What an input event does. While a binding is being captured or edited, the
/// pressed keys go there and nothing else happens.
pub open spec fn heard(
    l: Listener,
    running: bool,
    c: ConfigView,
    interacting: bool,
    event: InputEvent,
    now: u64,
) -> Heard {
    match key_of(event) {
        None => Heard { listener: l, running, msg: None },
        Some((k, press)) => if interacting {
            Heard {
                listener: l,
                running,
                msg: if press {
                    Some(EngineMsg::CaptureKey(k))
                } else {
                    None
                },
            }
        } else if keymap::binding_key(c.execution_hotkey) == Some(k) {
            on_execution_key(l, running, c.execution_mode, press, now)
        } else if keymap::binding_key(c.router_hotkey) == Some(k) && press && settled(
            now,
            l.last_router,
        ) {
            Heard {
                listener: Listener { last_router: now, ..l },
                running,
                msg: Some(EngineMsg::RouterNext),
            }
        } else {
            Heard { listener: l, running, msg: None }
        },
    }
}

impl Listener {
    /// A listener that starts now.
    pub fn new(now: u64) -> (r: Self)
        ensures
            r == (Listener { last_toggle: now, last_router: now }),
    {
        Listener { last_toggle: now, last_router: now }
    }

    /// Takes an input event from anywhere in the system. Where the message is
    /// `Toggled(true)`, a macro loop is to be started for the new run.
    pub fn hear(
        &mut self,
        engine: &mut Engine,
        interacting: bool,
        event: InputEvent,
        now: u64,
    ) -> (r: Option<EngineMsg>)
        ensures
            ({
                let h = heard(
                    *old(self),
                    old(engine).running,
                    old(engine).cfg@,
                    interacting,
                    event,
                    now,
                );
                &&& *final(self) == h.listener
                &&& *final(engine) == old(engine).switched(h.running)
                &&& r == h.msg
            }),
    {
        let (k, press) = match event {
            InputEvent::KeyPress(k) => (k, true),
            InputEvent::KeyRelease(k) => (k, false),
            _ => {
                return None;
            },
        };
        if interacting {
            return if press {
                Some(EngineMsg::CaptureKey(k))
            } else {
                None
            };
        }
        let is_exec = match keymap::binding_main_key(engine.cfg.execution_hotkey.as_str()) {
            Some(x) => x == k,
            None => false,
        };
        let is_router = match keymap::binding_main_key(engine.cfg.router_hotkey.as_str()) {
            Some(x) => x == k,
            None => false,
        };
        if is_exec {
            match engine.cfg.execution_mode {
                ExecutionMode::Hold => {
                    let changed = if press {
                        engine.start()
                    } else {
                        engine.stop()
                    };
                    if changed {
                        return Some(EngineMsg::Toggled(press));
                    }
                },
                ExecutionMode::Toggle => {
                    if press && now.saturating_sub(self.last_toggle) >= DEBOUNCE_NS {
                        self.last_toggle = now;
                        let on = engine.toggle();
                        return Some(EngineMsg::Toggled(on));
                    }
                },
            }
        } else if is_router && press {
            if now.saturating_sub(self.last_router) >= DEBOUNCE_NS {
                self.last_router = now;
                return Some(EngineMsg::RouterNext);
            }
        }
        None
    }
}

// ---------------------------------------------------------------------------
// Weapon slots
// ---------------------------------------------------------------------------

/// The binding of the weapon slot that a letter stands for.
pub open spec fn slot_binding(c: ConfigView, letter: char) -> Seq<char> {
    if letter == 'A' {
        c.weapon_slot1
    } else if letter == 'B' {
        c.weapon_slot2
    } else {
        c.weapon_slot3
    }
}

/// The bindings that an execution order selects: that of each slot letter where
/// it stands for the first time, without the empty ones.
pub open spec fn selected(c: ConfigView, order: Seq<char>) -> Seq<Seq<char>>
    decreases order.len(),
{
    if order.len() == 0 {
        seq![]
    } else {
        let before = order.drop_last();
        let letter = order.last();
        let binding = slot_binding(c, letter);
        if config::is_slot_letter(letter) && !before.contains(letter) && binding.len() > 0 {
            selected(c, before).push(binding)
        } else {
            selected(c, before)
        }
    }
}

/// The bindings of one round, in the order of the configuration.
pub open spec fn slots_in_order(c: ConfigView) -> Seq<Seq<char>> {
    selected(c, c.execution_order)
}

/// A sequence with two of its elements exchanged.
pub open spec fn exchanged<T>(s: Seq<T>, i: int, j: int) -> Seq<T> {
    s.update(i, s[j]).update(j, s[i])
}

/// One pick for each position from the last down to the second: a position
/// that does not lie behind it.
pub open spec fn valid_picks(n: nat, picks: Seq<usize>) -> bool {
    &&& picks.len() == if n == 0 {
        0
    } else {
        (n - 1) as nat
    }
    &&& forall|k: int| 0 <= k < picks.len() ==> (#[trigger] picks[k]) <= n - 1 - k
}

/// The sequence after the first `k` exchanges of a shuffle: the element at
/// each position, from the last one down, is exchanged with its pick.
pub open spec fn shuffled<T>(s: Seq<T>, picks: Seq<usize>, k: nat) -> Seq<T>
    decreases k,
{
    if k == 0 {
        s
    } else {
        let i = (k - 1) as nat;
        exchanged(shuffled(s, picks, i), s.len() - 1 - i, picks[i as int] as int)
    }
}

/// The weapon bindings of one round, before any shuffling.
pub fn ordered_slots(c: &Config) -> (r: Vec<String>)
    ensures
        text::views(r@) == slots_in_order(c@),
{
    let order = text::chars_of(c.execution_order.as_str());
    let mut seen_a: bool = false;
    let mut seen_b: bool = false;
    let mut seen_c: bool = false;
    let mut out: Vec<String> = Vec::new();
    let mut i: usize = 0;
    proof {
        assert(order@.take(0) =~= Seq::<char>::empty());
        assert(text::views(out@) =~= Seq::<Seq<char>>::empty());
    }
    while i < order.len()
        invariant
            i <= order@.len(),
            order@ == c@.execution_order,
            text::views(out@) == selected(c@, order@.take(i as int)),
            seen_a == order@.take(i as int).contains('A'),
            seen_b == order@.take(i as int).contains('B'),
            seen_c == order@.take(i as int).contains('C'),
        decreases order@.len() - i,
    {
        let x: char = order[i];
        let ghost before = order@.take(i as int);
        let ghost now = order@.take(i + 1);
        let ghost was = out@;
        proof {
            assert(now.drop_last() =~= before);
            assert(now.last() == x);
            assert forall|y: char| #[trigger] now.contains(y) == (before.contains(y) || y == x) by {
                if before.contains(y) {
                    let k = choose|k: int| 0 <= k < before.len() && before[k] == y;
                    assert(now[k] == y);
                }
                assert(now[i as int] == x);
            }
        }
        let fresh = if x == 'A' {
            !seen_a
        } else if x == 'B' {
            !seen_b
        } else if x == 'C' {
            !seen_c
        } else {
            false
        };
        if fresh {
            let name: &String = if x == 'A' {
                seen_a = true;
                &c.weapon_slot1
            } else if x == 'B' {
                seen_b = true;
                &c.weapon_slot2
            } else {
                seen_c = true;
                &c.weapon_slot3
            };
            if !text::same_text(name.as_str(), "") {
                out.push(name.clone());
                proof {
                    assert(text::views(out@) =~= text::views(was).push(name@));
                }
            }
            proof {
                reveal_strlit("");
                assert(name@.len() == 0 ==> name@ =~= ""@);
            }
        }
        i = i + 1;
    }
    proof {
        assert(order@.take(i as int) =~= order@);
    }
    out
}

/// Draws the picks of a shuffle of `n` elements.
fn draw_picks(n: usize, rng: &mut ThreadRng) -> (r: Vec<usize>)
    ensures
        valid_picks(n as nat, r@),
{
    let mut out: Vec<usize> = Vec::new();
    let mut i: usize = n;
    while i > 1
        invariant
            n > 0 ==> i >= 1,
            n == 0 ==> i == 0,
            i <= n,
            out@.len() == n - i,
            forall|k: int| 0 <= k < out@.len() ==> (#[trigger] out@[k]) <= n - 1 - k,
        decreases i,
    {
        i = i - 1;
        let j: u64 = random::random_up_to(rng, i as u64);
        out.push(j as usize);
    }
    out
}

/// Shuffles a list by the given picks.
pub fn shuffle(slots: Vec<String>, picks: &Vec<usize>) -> (r: Vec<String>)
    requires
        valid_picks(slots@.len(), picks@),
    ensures
        text::views(r@) == shuffled(text::views(slots@), picks@, picks@.len()),
{
    let ghost first = slots@;
    let mut v = slots;
    let n: usize = v.len();
    let mut k: usize = 0;
    while k < picks.len()
        invariant
            k <= picks@.len(),
            v@.len() == n,
            first.len() == n,
            valid_picks(n as nat, picks@),
            text::views(v@) == shuffled(text::views(first), picks@, k as nat),
        decreases picks@.len() - k,
    {
        let i: usize = n - 1 - k;
        let j: usize = picks[k];
        let ghost was = v@;
        let a = v[i].clone();
        let b = v[j].clone();
        v.set(i, b);
        v.set(j, a);
        proof {
            assert(text::views(v@) =~= exchanged(text::views(was), i as int, j as int));
        }
        k = k + 1;
    }
    v
}

/// What a round may start with: the bindings in order, shuffled by some picks
/// where the configuration asks for a random order.
pub open spec fn possible_slots(c: ConfigView, slots: Seq<Seq<char>>) -> bool {
    let ordered = slots_in_order(c);
    if c.random_execution {
        exists|picks: Seq<usize>|
            #[trigger] valid_picks(ordered.len(), picks) && slots == shuffled(
                ordered,
                picks,
                picks.len(),
            )
    } else {
        slots == ordered
    }
}

/// The weapon bindings of one round: those that the execution order selects,
/// shuffled where the configuration asks for a random order.
pub fn build_slots(c: &Config, rng: &mut ThreadRng) -> (r: Vec<String>)
    ensures
        possible_slots(c@, text::views(r@)),
        !c.random_execution ==> text::views(r@) == slots_in_order(c@),
        text::views(r@).to_multiset() == slots_in_order(c@).to_multiset(),
{
    let slots = ordered_slots(c);
    if c.random_execution {
        let picks = draw_picks(slots.len(), rng);
        proof {
            assert(text::views(slots@).len() == slots@.len());
            shuffle_keeps_the_elements(text::views(slots@), picks@);
        }
        shuffle(slots, &picks)
    } else {
        slots
    }
}

proof fn lemma_exchanged<T>(s: Seq<T>, i: int, j: int)
    requires
        0 <= i < s.len(),
        0 <= j < s.len(),
    ensures
        exchanged(s, i, j).to_multiset() == s.to_multiset(),
{
    broadcast use vstd::seq_lib::group_to_multiset_ensures;

    let a = s.update(i, s[j]);
    vstd::seq_lib::to_multiset_update(s, i, s[j]);
    vstd::seq_lib::to_multiset_update(a, j, s[i]);
    assert(s.contains(s[i]));
    assert(s.contains(s[j]));
    assert(a[j] == s[j]);
    assert(exchanged(s, i, j).to_multiset() =~= s.to_multiset());
}

proof fn lemma_shuffled<T>(s: Seq<T>, picks: Seq<usize>, k: nat)
    requires
        valid_picks(s.len(), picks),
        k <= picks.len(),
    ensures
        shuffled(s, picks, k).len() == s.len(),
        shuffled(s, picks, k).to_multiset() == s.to_multiset(),
    decreases k,
{
    if k > 0 {
        let i = (k - 1) as nat;
        lemma_shuffled(s, picks, i);
        assert(picks[i as int] <= s.len() - 1 - i);
        lemma_exchanged(shuffled(s, picks, i), s.len() - 1 - i, picks[i as int] as int);
    }
}

/// A shuffle drops nothing and doubles nothing, whatever the picks are.
pub proof fn shuffle_keeps_the_elements<T>(s: Seq<T>, picks: Seq<usize>)
    requires
        valid_picks(s.len(), picks),
    ensures
        shuffled(s, picks, picks.len()).to_multiset() == s.to_multiset(),
{
    lemma_shuffled(s, picks, picks.len());
}

/// The slot letters whose bindings an execution order selects.
pub open spec fn selected_letters(c: ConfigView, order: Seq<char>) -> Seq<char>
    decreases order.len(),
{
    if order.len() == 0 {
        seq![]
    } else {
        let before = order.drop_last();
        let letter = order.last();
        if config::is_slot_letter(letter) && !before.contains(letter) && slot_binding(
            c,
            letter,
        ).len() > 0 {
            selected_letters(c, before).push(letter)
        } else {
            selected_letters(c, before)
        }
    }
}

/// However the execution order is written, a round takes each weapon slot at
/// most once: exactly the slots that the order names and that have a binding.
pub proof fn a_round_takes_each_slot_once(c: ConfigView, order: Seq<char>)
    ensures
        selected(c, order) == selected_letters(c, order).map_values(
            |l: char| slot_binding(c, l),
        ),
        selected_letters(c, order).no_duplicates(),
        forall|l: char| #[trigger]
            selected_letters(c, order).contains(l) <==> order.contains(l)
                && config::is_slot_letter(l) && slot_binding(c, l).len() > 0,
    decreases order.len(),
{
    let f = |l: char| slot_binding(c, l);
    let letters = selected_letters(c, order);
    if order.len() == 0 {
        assert(selected(c, order) =~= letters.map_values(f));
    } else {
        let before = order.drop_last();
        let letter = order.last();
        a_round_takes_each_slot_once(c, before);
        let earlier = selected_letters(c, before);
        assert(order =~= before.push(letter));
        assert forall|l: char| #[trigger] order.contains(l) == (before.contains(l) || l
            == letter) by {
            if before.contains(l) {
                let k = choose|k: int| 0 <= k < before.len() && before[k] == l;
                assert(order[k] == l);
            }
            assert(order[order.len() - 1] == letter);
        }
        assert(selected(c, order) =~= letters.map_values(f));
        if letters.len() > earlier.len() {
            assert(letters =~= earlier.push(letter));
            assert forall|l: char| #[trigger] letters.contains(l) == (earlier.contains(l) || l
                == letter) by {
                if earlier.contains(l) {
                    let k = choose|k: int| 0 <= k < earlier.len() && earlier[k] == l;
                    assert(letters[k] == l);
                }
                assert(letters[letters.len() - 1] == letter);
            }
            assert(!earlier.contains(letter));
            assert forall|i: int, j: int|
                0 <= i < letters.len() && 0 <= j < letters.len() && i != j implies letters[i]
                != letters[j] by {
                if i < earlier.len() && j < earlier.len() {
                    assert(earlier[i] != earlier[j]);
                } else if i < earlier.len() {
                    assert(earlier.contains(earlier[i]));
                } else {
                    assert(earlier.contains(earlier[j]));
                }
            }
        }
    }
}

/// Where every slot that a valid order names has a binding, a round takes the
/// slots in that order.
pub proof fn a_valid_order_is_followed(c: ConfigView, order: Seq<char>)
    requires
        config::valid_order(order),
        forall|i: int| 0 <= i < order.len() ==> slot_binding(c, #[trigger] order[i]).len() > 0,
    ensures
        selected(c, order) == order.map_values(|l: char| slot_binding(c, l)),
{
    lemma_order_followed(c, order);
}

proof fn lemma_order_followed(c: ConfigView, order: Seq<char>)
    requires
        order.no_duplicates(),
        forall|i: int|
            0 <= i < order.len() ==> config::is_slot_letter(#[trigger] order[i]) && slot_binding(
                c,
                order[i],
            ).len() > 0,
    ensures
        selected(c, order) == order.map_values(|l: char| slot_binding(c, l)),
    decreases order.len(),
{
    let f = |l: char| slot_binding(c, l);
    if order.len() > 0 {
        let before = order.drop_last();
        assert forall|i: int| 0 <= i < before.len() implies config::is_slot_letter(
            #[trigger] before[i],
        ) && slot_binding(c, before[i]).len() > 0 by {
            assert(before[i] == order[i]);
        }
        lemma_order_followed(c, before);
        assert(!before.contains(order.last()));
        assert(config::is_slot_letter(order[order.len() - 1]));
        assert(order.map_values(f) =~= before.map_values(f).push(f(order.last())));
    } else {
        assert(order.map_values(f) =~= Seq::<Seq<char>>::empty());
    }
}

// ---------------------------------------------------------------------------
// Intervals
// ---------------------------------------------------------------------------

/// The offset that is drawn from: never more than the interval itself.
pub open spec fn offset_limit(base: u64, offset: u64) -> u64 {
    if offset < base {
        offset
    } else {
        base
    }
}

/// The interval that a draw gives, in milliseconds: the base plus or minus the
/// drawn difference, at least one and within the range of the type.
pub open spec fn varied(base: u64, delta: u64, up: bool) -> u64 {
    let ms: int = if up {
        base + delta
    } else {
        base - delta
    };
    if ms < 1 {
        1
    } else if ms > u64::MAX {
        u64::MAX
    } else {
        ms as u64
    }
}

/// Varies an interval by a drawn difference.
pub fn jitter_by(base: u64, delta: u64, up: bool) -> (r: u64)
    ensures
        r == varied(base, delta, up),
{
    let ms: u64 = if up {
        base.saturating_add(delta)
    } else {
        base.saturating_sub(delta)
    };
    if ms < 1 {
        1
    } else {
        ms
    }
}

/// An interval that some draw gives.
pub open spec fn possible_jitter(base: u64, offset: u64, ms: u64) -> bool {
    exists|delta: u64, up: bool|
        delta <= offset_limit(base, offset) && ms == #[trigger] varied(base, delta, up)
}

/// A random interval, in milliseconds, around `base`: at most `offset` away
/// from it, and never zero.
pub fn jitter(base: u64, offset: u64, rng: &mut ThreadRng) -> (r: u64)
    ensures
        possible_jitter(base, offset, r),
        r >= 1,
        base > 0 ==> base - offset <= r <= base + offset,
{
    let limit: u64 = if offset < base {
        offset
    } else {
        base
    };
    let delta: u64 = random::random_up_to(rng, limit);
    let up = random::random_ratio(rng, 1, 2);
    let ms: u64 = jitter_by(base, delta, up);
    proof {
        jitter_stays_in_range(base, offset, ms);
    }
    ms
}

/// Every interval that can be drawn lasts at least a millisecond, so the macro
/// loop always waits; and it is within the offset of a base that is not zero.
pub proof fn jitter_stays_in_range(base: u64, offset: u64, ms: u64)
    requires
        possible_jitter(base, offset, ms),
    ensures
        ms >= 1,
        base > 0 ==> base - offset <= ms <= base + offset,
{
    let (delta, up) = choose|delta: u64, up: bool|
        delta <= offset_limit(base, offset) && ms == #[trigger] varied(base, delta, up);
    assert(ms == varied(base, delta, up));
}

// ---------------------------------------------------------------------------
// The macro loop
// ---------------------------------------------------------------------------

/// The binding that shoots: the right mouse button.
pub open spec fn shoot_binding() -> Seq<char> {
    "MB2"@
}

/// The binding that shoots: the right mouse button.
pub fn shooting() -> (r: String)
    ensures
        r@ == shoot_binding(),
{
    "MB2".to_string()
}

/// How long the macro loop pauses while the shooting interval is zero.
pub const PAUSE_MS: u64 = 200;

/// The moment that lies `ms` milliseconds behind `now`.
pub open spec fn moment_after(now: u64, ms: u64) -> u128 {
    (now + ms * 1_000_000) as u128
}

fn after_ms(now: u64, ms: u64) -> (r: u128)
    ensures
        r == moment_after(now, ms),
        r == now + ms * 1_000_000,
{
    now as u128 + ms as u128 * 1_000_000
}

/// A round of the macro loop: the weapons that are still to come, and when the
/// next shot and the next weapon switch are due.
pub struct Round {
    pub queue: Vec<String>,
    pub next_shot: u128,
    pub next_switch: u128,
}

/// What a round holds.
pub struct RoundView {
    pub queue: Seq<Seq<char>>,
    pub next_shot: u128,
    pub next_switch: u128,
}

impl View for Round {
    type V = RoundView;

    open spec fn view(&self) -> RoundView {
        RoundView {
            queue: text::views(self.queue@),
            next_shot: self.next_shot,
            next_switch: self.next_switch,
        }
    }
}

/// What the macro loop does next.
pub enum Tick {
    /// Wait for a while, then schedule anew.
    Pause,
    /// Shoot or not; switch to a weapon or not; then wait until the given
    /// moment, or end the round where there is none.
    Act { shoot: bool, switch: Option<String>, until: Option<u128> },
}

/// What a tick says.
pub enum TickView {
    Pause,
    Act { shoot: bool, switch: Option<Seq<char>>, until: Option<u128> },
}

impl View for Tick {
    type V = TickView;

    open spec fn view(&self) -> TickView {
        match *self {
            Tick::Pause => TickView::Pause,
            Tick::Act { shoot, switch, until } => TickView::Act {
                shoot,
                switch: text::opt_view(switch),
                until,
            },
        }
    }
}

pub open spec fn earlier(a: u128, b: u128) -> u128 {
    if a <= b {
        a
    } else {
        b
    }
}

impl RoundView {
    /// A round that starts now: the first shot at once, the first switch after
    /// `switch_ms`.
    pub open spec fn started(now: u64, switch_ms: u64) -> RoundView {
        RoundView {
            queue: seq![],
            next_shot: now as u128,
            next_switch: moment_after(now, switch_ms),
        }
    }

    /// The same round with its moments counted from now.
    pub open spec fn rescheduled(self, now: u64, switch_ms: u64) -> RoundView {
        RoundView {
            queue: self.queue,
            next_shot: now as u128,
            next_switch: moment_after(now, switch_ms),
        }
    }

    pub open spec fn shot_due(self, now: u64) -> bool {
        now >= self.next_shot
    }

    pub open spec fn switch_due(self, now: u64) -> bool {
        now >= self.next_switch
    }

    /// The weapons to come: those of a new turn where none is left.
    pub open spec fn refilled(self, slots: Seq<Seq<char>>) -> Seq<Seq<char>> {
        if self.queue.len() == 0 {
            slots
        } else {
            self.queue
        }
    }

    /// When the next shot is due after this tick.
    pub open spec fn shot_after(self, now: u64, shot_ms: u64) -> u128 {
        if self.shot_due(now) {
            moment_after(now, shot_ms)
        } else {
            self.next_shot
        }
    }

    /// The round after a tick, and what the tick does: a shot and a switch
    /// where they are due, each by its own interval. A round without a weapon
    /// to switch to ends.
    pub open spec fn ticked(
        self,
        shoot_interval_ms: u64,
        now: u64,
        shot_ms: u64,
        slots: Seq<Seq<char>>,
        switch_ms: u64,
    ) -> (RoundView, TickView) {
        let shoot = self.shot_due(now);
        let next_shot = self.shot_after(now, shot_ms);
        let queue = self.refilled(slots);
        if shoot_interval_ms == 0 {
            (self, TickView::Pause)
        } else if !self.switch_due(now) {
            (
                RoundView { next_shot, ..self },
                TickView::Act {
                    shoot,
                    switch: None,
                    until: Some(earlier(next_shot, self.next_switch)),
                },
            )
        } else if queue.len() == 0 {
            (
                RoundView { queue, next_shot, next_switch: self.next_switch },
                TickView::Act { shoot, switch: None, until: None },
            )
        } else {
            let next_switch = moment_after(now, switch_ms);
            (
                RoundView { queue: queue.drop_first(), next_shot, next_switch },
                TickView::Act {
                    shoot,
                    switch: Some(queue[0]),
                    until: Some(earlier(next_shot, next_switch)),
                },
            )
        }
    }
}

impl Round {
    /// Starts a round with the given delay of its first weapon switch.
    pub fn starting(now: u64, switch_ms: u64) -> (r: Self)
        ensures
            r@ == RoundView::started(now, switch_ms),
    {
        let r = Round {
            queue: Vec::new(),
            next_shot: now as u128,
            next_switch: after_ms(now, switch_ms),
        };
        proof {
            assert(r@.queue =~= Seq::<Seq<char>>::empty());
        }
        r
    }

    /// Counts the moments of the round from now.
    pub fn restart(&mut self, now: u64, switch_ms: u64)
        ensures
            final(self)@ == old(self)@.rescheduled(now, switch_ms),
    {
        self.next_shot = now as u128;
        self.next_switch = after_ms(now, switch_ms);
    }

    /// Does one tick with the given draws. The weapons are used only where none
    /// is left in the queue.
    pub fn act(
        &mut self,
        shoot_interval_ms: u64,
        now: u64,
        shot_ms: u64,
        slots: Vec<String>,
        switch_ms: u64,
    ) -> (r: Tick)
        ensures
            (final(self)@, r@) == old(self)@.ticked(
                shoot_interval_ms,
                now,
                shot_ms,
                text::views(slots@),
                switch_ms,
            ),
    {
        if shoot_interval_ms == 0 {
            return Tick::Pause;
        }
        let shoot = now as u128 >= self.next_shot;
        if shoot {
            self.next_shot = after_ms(now, shot_ms);
        }
        let mut switch: Option<String> = None;
        if now as u128 >= self.next_switch {
            if self.queue.len() == 0 {
                self.queue = slots;
                if self.queue.len() == 0 {
                    return Tick::Act { shoot, switch: None, until: None };
                }
            }
            let ghost full = self.queue@;
            let slot = self.queue.remove(0);
            proof {
                assert(text::views(self.queue@) =~= text::views(full).drop_first());
                assert(slot@ == text::views(full)[0]);
            }
            switch = Some(slot);
            self.next_switch = after_ms(now, switch_ms);
        }
        let until: u128 = if self.next_shot <= self.next_switch {
            self.next_shot
        } else {
            self.next_switch
        };
        Tick::Act { shoot, switch, until: Some(until) }
    }
}

/// What is drawn for one step of the macro loop.
pub struct Draws {
    /// The delay of the first weapon switch of a round.
    pub first_ms: u64,
    /// The time to the next shot.
    pub shot_ms: u64,
    /// The weapons of the next turn.
    pub slots: Vec<String>,
    /// The time to the next weapon switch.
    pub switch_ms: u64,
}

pub struct DrawsView {
    pub first_ms: u64,
    pub shot_ms: u64,
    pub slots: Seq<Seq<char>>,
    pub switch_ms: u64,
}

impl View for Draws {
    type V = DrawsView;

    open spec fn view(&self) -> DrawsView {
        DrawsView {
            first_ms: self.first_ms,
            shot_ms: self.shot_ms,
            slots: text::views(self.slots@),
            switch_ms: self.switch_ms,
        }
    }
}

impl DrawsView {
    /// What can be drawn under a configuration.
    pub open spec fn possible(self, c: ConfigView) -> bool {
        &&& possible_jitter(
            c.weapon_switch_interval_ms,
            c.weapon_switch_interval_offset_ms,
            self.first_ms,
        )
        &&& possible_jitter(c.shoot_interval_ms, c.shoot_interval_offset_ms, self.shot_ms)
        &&& possible_slots(c, self.slots)
        &&& possible_jitter(
            c.weapon_switch_interval_ms,
            c.weapon_switch_interval_offset_ms,
            self.switch_ms,
        )
    }
}

impl Draws {
    /// Draws what a step may need.
    pub fn draw(c: &Config, rng: &mut ThreadRng) -> (r: Self)
        ensures
            r@.possible(c@),
    {
        let first_ms: u64 = jitter(
            c.weapon_switch_interval_ms,
            c.weapon_switch_interval_offset_ms,
            rng,
        );
        let shot_ms: u64 = jitter(c.shoot_interval_ms, c.shoot_interval_offset_ms, rng);
        let slots = build_slots(c, rng);
        let switch_ms: u64 = jitter(
            c.weapon_switch_interval_ms,
            c.weapon_switch_interval_offset_ms,
            rng,
        );
        Draws { first_ms, shot_ms, slots, switch_ms }
    }
}

/// How far the macro loop is.
#[derive(Debug)]
pub enum LoopPhase {
    /// Between two rounds.
    Start,
    /// Before the next tick.
    Tick,
    /// Within a tick: the shot is done, and perhaps a weapon is to be switched
    /// to; then comes the wait, or the end of the round.
    Taps { switch: Option<String>, until: Option<u128> },
    /// In a pause, of which so many milliseconds are left.
    Pause { left: u64 },
}

pub enum PhaseView {
    Start,
    Tick,
    Taps { switch: Option<Seq<char>>, until: Option<u128> },
    Pause { left: u64 },
}

impl View for LoopPhase {
    type V = PhaseView;

    open spec fn view(&self) -> PhaseView {
        match *self {
            LoopPhase::Start => PhaseView::Start,
            LoopPhase::Tick => PhaseView::Tick,
            LoopPhase::Taps { switch, until } => PhaseView::Taps {
                switch: text::opt_view(switch),
                until,
            },
            LoopPhase::Pause { left } => PhaseView::Pause { left },
        }
    }
}

/// The macro loop, which acts for one run of the engine.
pub struct MacroLoop {
    pub run: u64,
    pub round: Round,
    pub phase: LoopPhase,
}

pub struct LoopView {
    pub run: u64,
    pub round: RoundView,
    pub phase: PhaseView,
}

impl View for MacroLoop {
    type V = LoopView;

    open spec fn view(&self) -> LoopView {
        LoopView { run: self.run, round: self.round@, phase: self.phase@ }
    }
}

/// What the macro loop does next.
#[derive(Debug)]
pub enum LoopAction {
    /// It ends.
    End,
    /// It taps a binding.
    Tap(String),
    /// It sleeps for so many milliseconds.
    Rest(u64),
    /// It waits for a moment.
    Until(u128),
}

pub enum ActionView {
    End,
    Tap(Seq<char>),
    Rest(u64),
    Until(u128),
}

impl View for LoopAction {
    type V = ActionView;

    open spec fn view(&self) -> ActionView {
        match *self {
            LoopAction::End => ActionView::End,
            LoopAction::Tap(s) => ActionView::Tap(s@),
            LoopAction::Rest(ms) => ActionView::Rest(ms),
            LoopAction::Until(t) => ActionView::Until(t),
        }
    }
}

impl LoopView {
    /// Before the first round: no weapon is queued, and both moments are due.
    pub open spec fn unstarted(run: u64) -> LoopView {
        LoopView { run, round: RoundView::started(0, 0), phase: PhaseView::Start }
    }

    pub open spec fn in_phase(self, phase: PhaseView) -> LoopView {
        LoopView { phase, ..self }
    }

    /// The loop ends; it could be started again.
    pub open spec fn ended(self) -> (LoopView, ActionView) {
        (self.in_phase(PhaseView::Start), ActionView::End)
    }

    /// A stretch of a pause, where the engine is on.
    pub open spec fn pausing(self, running: bool) -> (LoopView, ActionView) {
        if running {
            (
                self.in_phase(PhaseView::Pause { left: (PAUSE_MS - CHUNK_MS) as u64 }),
                ActionView::Rest(CHUNK_MS),
            )
        } else {
            self.ended()
        }
    }

    /// A new round, where the engine is on: its first shot is fired at once.
    pub open spec fn begun(
        self,
        running: bool,
        shoot_interval_ms: u64,
        now: u64,
        d: DrawsView,
    ) -> (LoopView, ActionView) {
        let fresh = RoundView::started(now, d.first_ms);
        let (round, t) = fresh.ticked(shoot_interval_ms, now, d.shot_ms, d.slots, d.switch_ms);
        let s = LoopView { round, ..self };
        if !running {
            self.ended()
        } else {
            match t {
                TickView::Pause => s.pausing(running),
                TickView::Act { shoot, switch, until } => (
                    s.in_phase(PhaseView::Taps { switch, until }),
                    ActionView::Tap(shoot_binding()),
                ),
            }
        }
    }

    /// After the shot of a tick: the weapon switch, and then the wait. Only
    /// then is the switch of the engine looked at.
    pub open spec fn tapped(
        self,
        switch: Option<Seq<char>>,
        until: Option<u128>,
        running: bool,
        shoot_interval_ms: u64,
        now: u64,
        d: DrawsView,
    ) -> (LoopView, ActionView) {
        match (switch, until) {
            (Some(binding), _) => (
                self.in_phase(PhaseView::Taps { switch: None, until }),
                ActionView::Tap(binding),
            ),
            (None, Some(t)) => if running {
                (self.in_phase(PhaseView::Tick), ActionView::Until(t))
            } else {
                self.ended()
            },
            (None, None) => self.begun(running, shoot_interval_ms, now, d),
        }
    }

    /// A tick of the current round.
    pub open spec fn ticking(
        self,
        running: bool,
        shoot_interval_ms: u64,
        now: u64,
        d: DrawsView,
    ) -> (LoopView, ActionView) {
        let (round, t) = self.round.ticked(
            shoot_interval_ms,
            now,
            d.shot_ms,
            d.slots,
            d.switch_ms,
        );
        let s = LoopView { round, ..self };
        match t {
            TickView::Pause => s.pausing(running),
            TickView::Act { shoot, switch, until } => if shoot {
                (
                    s.in_phase(PhaseView::Taps { switch, until }),
                    ActionView::Tap(shoot_binding()),
                )
            } else {
                s.tapped(switch, until, running, shoot_interval_ms, now, d)
            },
        }
    }

    /// A pause goes on, or it is over; then the moments are counted anew.
    pub open spec fn paused(
        self,
        left: u64,
        running: bool,
        shoot_interval_ms: u64,
        now: u64,
        d: DrawsView,
    ) -> (LoopView, ActionView) {
        match chunk(left, running) {
            Some(ms) => (
                self.in_phase(PhaseView::Pause { left: (left - ms) as u64 }),
                ActionView::Rest(ms),
            ),
            None => if running {
                LoopView { round: self.round.rescheduled(now, d.first_ms), ..self }.ticking(
                    running,
                    shoot_interval_ms,
                    now,
                    d,
                )
            } else {
                self.ended()
            },
        }
    }

    /// The next step of the loop.
    pub open spec fn stepped(
        self,
        running: bool,
        shoot_interval_ms: u64,
        now: u64,
        d: DrawsView,
    ) -> (LoopView, ActionView) {
        match self.phase {
            PhaseView::Start => self.begun(running, shoot_interval_ms, now, d),
            PhaseView::Tick => self.ticking(running, shoot_interval_ms, now, d),
            PhaseView::Taps { switch, until } => self.tapped(
                switch,
                until,
                running,
                shoot_interval_ms,
                now,
                d,
            ),
            PhaseView::Pause { left } => self.paused(left, running, shoot_interval_ms, now, d),
        }
    }

    /// The next step under an engine: once another run has begun, the loop ends.
    pub open spec fn driven(self, e: Engine, now: u64, d: DrawsView) -> (LoopView, ActionView) {
        if self.run == e.run {
            self.stepped(e.running, e.cfg.shoot_interval_ms, now, d)
        } else {
            self.ended()
        }
    }
}

impl MacroLoop {
    /// A loop that has not started yet.
    pub fn new(run: u64) -> (r: Self)
        ensures
            r@ == LoopView::unstarted(run),
    {
        MacroLoop { run, round: Round::starting(0, 0), phase: LoopPhase::Start }
    }

    fn end(&mut self) -> (r: LoopAction)
        ensures
            (final(self)@, r@) == old(self)@.ended(),
    {
        self.phase = LoopPhase::Start;
        LoopAction::End
    }

    fn pause(&mut self, running: bool) -> (r: LoopAction)
        ensures
            (final(self)@, r@) == old(self)@.pausing(running),
    {
        if running {
            self.phase = LoopPhase::Pause { left: PAUSE_MS - CHUNK_MS };
            LoopAction::Rest(CHUNK_MS)
        } else {
            self.end()
        }
    }

    fn begin(&mut self, running: bool, shoot_interval_ms: u64, now: u64, d: Draws) -> (r:
        LoopAction)
        ensures
            (final(self)@, r@) == old(self)@.begun(running, shoot_interval_ms, now, d@),
    {
        if !running {
            return self.end();
        }
        let mut round = Round::starting(now, d.first_ms);
        let t = round.act(shoot_interval_ms, now, d.shot_ms, d.slots, d.switch_ms);
        self.round = round;
        match t {
            Tick::Pause => self.pause(running),
            Tick::Act { shoot, switch, until } => {
                self.phase = LoopPhase::Taps { switch, until };
                LoopAction::Tap(shooting())
            },
        }
    }

    fn tap(
        &mut self,
        switch: Option<String>,
        until: Option<u128>,
        running: bool,
        shoot_interval_ms: u64,
        now: u64,
        d: Draws,
    ) -> (r: LoopAction)
        ensures
            (final(self)@, r@) == old(self)@.tapped(
                text::opt_view(switch),
                until,
                running,
                shoot_interval_ms,
                now,
                d@,
            ),
    {
        match switch {
            Some(binding) => {
                self.phase = LoopPhase::Taps { switch: None, until };
                LoopAction::Tap(binding)
            },
            None => match until {
                Some(t) => if running {
                    self.phase = LoopPhase::Tick;
                    LoopAction::Until(t)
                } else {
                    self.end()
                },
                None => self.begin(running, shoot_interval_ms, now, d),
            },
        }
    }

    fn tick(&mut self, running: bool, shoot_interval_ms: u64, now: u64, d: Draws) -> (r: LoopAction)
        ensures
            (final(self)@, r@) == old(self)@.ticking(running, shoot_interval_ms, now, d@),
    {
        let slots = copy_list(&d.slots);
        match self.round.act(shoot_interval_ms, now, d.shot_ms, slots, d.switch_ms) {
            Tick::Pause => self.pause(running),
            Tick::Act { shoot, switch, until } => if shoot {
                self.phase = LoopPhase::Taps { switch, until };
                LoopAction::Tap(shooting())
            } else {
                self.tap(switch, until, running, shoot_interval_ms, now, d)
            },
        }
    }

    /// Takes the next step with the given draws: `running` is the switch of the
    /// engine, and `now` the time.
    pub fn step(&mut self, running: bool, shoot_interval_ms: u64, now: u64, d: Draws) -> (r:
        LoopAction)
        ensures
            (final(self)@, r@) == old(self)@.stepped(running, shoot_interval_ms, now, d@),
    {
        let mut phase = LoopPhase::Start;
        core::mem::swap(&mut self.phase, &mut phase);
        match phase {
            LoopPhase::Start => self.begin(running, shoot_interval_ms, now, d),
            LoopPhase::Tick => {
                self.phase = LoopPhase::Tick;
                self.tick(running, shoot_interval_ms, now, d)
            },
            LoopPhase::Taps { switch, until } => self.tap(
                switch,
                until,
                running,
                shoot_interval_ms,
                now,
                d,
            ),
            LoopPhase::Pause { left } => match next_chunk(left, running) {
                Some(ms) => {
                    self.phase = LoopPhase::Pause { left: left - ms };
                    LoopAction::Rest(ms)
                },
                None => if running {
                    self.round.restart(now, d.first_ms);
                    self.tick(running, shoot_interval_ms, now, d)
                } else {
                    self.end()
                },
            },
        }
    }

    /// Takes the next step under the engine: its configuration is the one of
    /// this moment, so a change of it takes effect with the next action.
    pub fn next(&mut self, e: &Engine, now: u64, rng: &mut ThreadRng) -> (r: LoopAction)
        ensures
            exists|d: DrawsView|
                d.possible(e.cfg@) && (final(self)@, r@) == #[trigger] old(self)@.driven(
                    *e,
                    now,
                    d,
                ),
    {
        let d = Draws::draw(&e.cfg, rng);
        let ghost drawn = d@;
        let r = if self.run == e.run {
            self.step(e.running, e.cfg.shoot_interval_ms, now, d)
        } else {
            self.end()
        };
        assert((self@, r@) == old(self)@.driven(*e, now, drawn));
        r
    }
}

fn copy_list(list: &Vec<String>) -> (r: Vec<String>)
    ensures
        text::views(r@) == text::views(list@),
{
    let mut out: Vec<String> = Vec::new();
    let mut i: usize = 0;
    while i < list.len()
        invariant
            i <= list@.len(),
            text::views(out@) == text::views(list@).take(i as int),
        decreases list@.len() - i,
    {
        let ghost before = out@;
        out.push(list[i].clone());
        proof {
            let all = text::views(list@);
            assert(text::views(out@) =~= text::views(before).push(list@[i as int]@));
            assert(all.take(i + 1) =~= all.take(i as int).push(all[i as int]));
        }
        i = i + 1;
    }
    proof {
        assert(text::views(list@).take(i as int) =~= text::views(list@));
    }
    out
}

/// Whatever was drawn, a tick that does not end the round waits for a moment
/// that is still to come: the macro loop never spins.
pub proof fn every_wait_ends_later(r: RoundView, c: ConfigView, now: u64, d: DrawsView)
    requires
        d.possible(c),
    ensures
        r.ticked(c.shoot_interval_ms, now, d.shot_ms, d.slots, d.switch_ms).1 matches TickView::Act {
            until: Some(t),
            ..
        } ==> t > now,
{
    jitter_stays_in_range(c.shoot_interval_ms, c.shoot_interval_offset_ms, d.shot_ms);
    assert(moment_after(now, d.shot_ms) == now + d.shot_ms * 1_000_000);
    jitter_stays_in_range(
        c.weapon_switch_interval_ms,
        c.weapon_switch_interval_offset_ms,
        d.switch_ms,
    );
    assert(moment_after(now, d.switch_ms) == now + d.switch_ms * 1_000_000);
}

/// A round fires its first shot at once.
pub proof fn a_round_starts_with_a_shot(now: u64, d: DrawsView, shoot_interval_ms: u64)
    requires
        shoot_interval_ms > 0,
    ensures
        RoundView::started(now, d.first_ms).ticked(
            shoot_interval_ms,
            now,
            d.shot_ms,
            d.slots,
            d.switch_ms,
        ).1 matches TickView::Act { shoot, .. } && shoot,
{
}

/// Once the engine is off, the loop finishes the taps of the current tick, which
/// are two at most, and ends.
pub proof fn switching_off_ends_the_loop(
    s: LoopView,
    shoot1: u64,
    now1: u64,
    d1: DrawsView,
    shoot2: u64,
    now2: u64,
    d2: DrawsView,
    shoot3: u64,
    now3: u64,
    d3: DrawsView,
)
    ensures
        ({
            let (s1, a1) = s.stepped(false, shoot1, now1, d1);
            let (s2, a2) = s1.stepped(false, shoot2, now2, d2);
            let (s3, a3) = s2.stepped(false, shoot3, now3, d3);
            &&& a1 is Tap || a1 is End
            &&& a1 is Tap ==> a2 is Tap || a2 is End
            &&& a1 is Tap && a2 is Tap ==> a3 is End
        }),
{
}

/// No two macro loops act: of two loops that were started for different runs,
/// one at least ends at its next step, whatever the engine and the clock say.
pub proof fn no_two_loops_act(
    e: Engine,
    a: LoopView,
    b: LoopView,
    now_a: u64,
    now_b: u64,
    d_a: DrawsView,
    d_b: DrawsView,
)
    requires
        a.run != b.run,
    ensures
        a.driven(e, now_a, d_a).1 is End || b.driven(e, now_b, d_b).1 is End,
{
}

/// A loop that has not seen the engine go off ends all the same once the engine
/// is on again, and the loop that was started for the new run acts alone.
pub proof fn a_restart_ends_the_old_loop(
    e: Engine,
    s: LoopView,
    fresh: LoopView,
    now: u64,
    d: DrawsView,
)
    requires
        e.running,
        s.run == e.run,
        fresh.run == e.switched(false).switched(true).run,
    ensures
        ({
            let again = e.switched(false).switched(true);
            &&& again.running
            &&& again.run != e.run
            &&& s.driven(again, now, d) == s.ended()
            &&& fresh.driven(again, now, d) == fresh.stepped(
                true,
                again.cfg.shoot_interval_ms,
                now,
                d,
            )
        }),
{
}

/// The engine after the switch was put into the given positions, one after the
/// other.
pub open spec fn switched_through(e: Engine, positions: Seq<bool>) -> Engine
    decreases positions.len(),
{
    if positions.len() == 0 {
        e
    } else {
        switched_through(e, positions.drop_last()).switched(positions.last())
    }
}

/// The loop of an earlier run never acts again, however the engine is switched
/// on and off, until the counter of the runs is full.
pub proof fn an_old_loop_stays_ended(
    e: Engine,
    positions: Seq<bool>,
    s: LoopView,
    now: u64,
    d: DrawsView,
)
    requires
        s.run < e.run,
        e.run + positions.len() <= u64::MAX,
    ensures
        s.driven(switched_through(e, positions), now, d) == s.ended(),
        e.run <= switched_through(e, positions).run <= e.run + positions.len(),
    decreases positions.len(),
{
    if positions.len() > 0 {
        an_old_loop_stays_ended(e, positions.drop_last(), s, now, d);
    }
}

/// The shots and the weapon switches do not hold each other up: the weapon that
/// a tick switches to, and when the next switch is due, do not depend on the
/// schedule of the shots; nor do the shots depend on that of the switches.
pub proof fn shots_and_switches_are_independent(
    r: RoundView,
    other_shot: u128,
    other_switch: u128,
    shoot_interval_ms: u64,
    now: u64,
    shot_ms: u64,
    other_shot_ms: u64,
    slots: Seq<Seq<char>>,
    switch_ms: u64,
    other_switch_ms: u64,
)
    requires
        shoot_interval_ms > 0,
    ensures
        ({
            let (r1, t1) = r.ticked(shoot_interval_ms, now, shot_ms, slots, switch_ms);
            let (r2, t2) = (RoundView { next_shot: other_shot, ..r }).ticked(
                shoot_interval_ms,
                now,
                other_shot_ms,
                slots,
                switch_ms,
            );
            let (r3, t3) = (RoundView { next_switch: other_switch, ..r }).ticked(
                shoot_interval_ms,
                now,
                shot_ms,
                slots,
                other_switch_ms,
            );
            &&& t1->switch == t2->switch
            &&& r1.queue == r2.queue
            &&& r1.next_switch == r2.next_switch
            &&& t1->shoot == t3->shoot
            &&& r1.next_shot == r3.next_shot
        }),
{
}

/// The weapons to come after `k` switches, where each turn takes `slots`.
pub open spec fn queue_after(slots: Seq<Seq<char>>, k: nat) -> Seq<Seq<char>>
    decreases k,
{
    if k == 0 {
        seq![]
    } else {
        let q = queue_after(slots, (k - 1) as nat);
        if q.len() == 0 {
            slots.drop_first()
        } else {
            q.drop_first()
        }
    }
}

proof fn lemma_queue_after(slots: Seq<Seq<char>>, k: nat)
    requires
        slots.len() > 0,
    ensures
        queue_after(slots, k) == if k % slots.len() == 0 {
            seq![]
        } else {
            slots.skip((k % slots.len()) as int)
        },
    decreases k,
{
    let n = slots.len();
    if k > 0 {
        let j = (k - 1) as nat;
        lemma_queue_after(slots, j);
        vstd::arithmetic::div_mod::lemma_mod_bound(j as int, n as int);
        assert(k % n == if j % n + 1 == n {
            0
        } else {
            j % n + 1
        }) by (nonlinear_arith)
            requires
                k == j + 1,
                n > 0,
        ;
        if j % n == 0 {
            if n == 1 {
                assert(slots.drop_first() =~= Seq::<Seq<char>>::empty());
            } else {
                assert(slots.drop_first() =~= slots.skip(1));
            }
        } else {
            let q = queue_after(slots, j);
            assert(q.len() > 0);
            if j % n + 1 == n {
                assert(q.drop_first() =~= Seq::<Seq<char>>::empty());
            } else {
                assert(q.drop_first() =~= slots.skip((k % n) as int));
            }
        }
    } else {
        assert(0nat % n == 0) by (nonlinear_arith)
            requires
                n > 0,
        ;
    }
}

/// The weapons are switched through in turn: where each turn takes the same
/// weapons, the switch number `k` (counted from zero) goes to the one at the
/// position `k` modulo their number, and leaves the next ones in the queue.
pub proof fn weapons_come_in_turn(
    r: RoundView,
    k: nat,
    shoot_interval_ms: u64,
    now: u64,
    shot_ms: u64,
    slots: Seq<Seq<char>>,
    switch_ms: u64,
)
    requires
        slots.len() > 0,
        shoot_interval_ms > 0,
        r.switch_due(now),
        r.queue == queue_after(slots, k),
    ensures
        ({
            let (after, t) = r.ticked(shoot_interval_ms, now, shot_ms, slots, switch_ms);
            &&& t->switch == Some(slots[(k % slots.len()) as int])
            &&& after.queue == queue_after(slots, k + 1)
        }),
{
    lemma_queue_after(slots, k);
    vstd::arithmetic::div_mod::lemma_mod_bound(k as int, slots.len() as int);
}

// ---------------------------------------------------------------------------
// Waiting
// ---------------------------------------------------------------------------

/// The last stretch of a wait, in which the moment is met by spinning.
pub const SPIN_NS: u128 = 2_000_000;

/// What a wait does next.
#[derive(Clone, Copy, PartialEq, Eq, Debug, Structural)]
pub enum WaitStep {
    /// Sleep for a millisecond.
    Sleep,
    /// Look at the clock again at once.
    Spin,
    /// The moment has come.
    Done,
}

/// What a wait for `end` does at `now`: it sleeps until two milliseconds before
/// the moment, where there is such a point in time, and then spins.
pub open spec fn waiting(now: u64, end: u128) -> WaitStep {
    if now >= end {
        WaitStep::Done
    } else if end >= SPIN_NS && now >= end - SPIN_NS {
        WaitStep::Spin
    } else {
        WaitStep::Sleep
    }
}

/// The next step of the wait for `end`.
pub fn wait_step(now: u64, end: u128) -> (r: WaitStep)
    ensures
        r == waiting(now, end),
{
    let spin_from: u128 = if end >= SPIN_NS {
        end - SPIN_NS
    } else {
        end
    };
    if (now as u128) < spin_from {
        WaitStep::Sleep
    } else if (now as u128) < end {
        WaitStep::Spin
    } else {
        WaitStep::Done
    }
}

/// The longest sleep during which the switch of the engine is not looked at.
pub const CHUNK_MS: u64 = 50;

/// The next stretch of a pause that ends early where the engine is off.
pub open spec fn chunk(remaining_ms: u64, running: bool) -> Option<u64> {
    if remaining_ms == 0 || !running {
        None
    } else if remaining_ms < CHUNK_MS {
        Some(remaining_ms)
    } else {
        Some(CHUNK_MS)
    }
}

/// The next stretch of a pause, in milliseconds; none where the pause is over
/// or the engine is off.
pub fn next_chunk(remaining_ms: u64, running: bool) -> (r: Option<u64>)
    ensures
        r == chunk(remaining_ms, running),
        r matches Some(ms) ==> 0 < ms <= remaining_ms,
{
    if remaining_ms == 0 || !running {
        None
    } else if remaining_ms < CHUNK_MS {
        Some(remaining_ms)
    } else {
        Some(CHUNK_MS)
    }
}

// ---------------------------------------------------------------------------
// Laws of the hotkeys
// ---------------------------------------------------------------------------

/// A held hotkey counts once: within the debounce time after an event that
/// flipped the switch in the toggle mode, no event flips it again; and so for
/// the hotkey of the next configuration.
pub proof fn repeats_are_ignored(
    l: Listener,
    running: bool,
    c: ConfigView,
    event: InputEvent,
    now: u64,
    later_running: bool,
    later_interacting: bool,
    later_event: InputEvent,
    later: u64,
)
    requires
        c.execution_mode == ExecutionMode::Toggle,
        later < now + DEBOUNCE_NS,
    ensures
        ({
            let first = heard(l, running, c, false, event, now);
            let second = heard(
                first.listener,
                later_running,
                c,
                later_interacting,
                later_event,
                later,
            );
            &&& first.msg matches Some(EngineMsg::Toggled(_)) ==> !(second.msg matches Some(
                EngineMsg::Toggled(_),
            )) && second.running == later_running
            &&& first.msg == Some(EngineMsg::RouterNext) ==> second.msg != Some(
                EngineMsg::RouterNext,
            )
        }),
{
}

/// While a binding is being captured or edited, no key reaches the engine.
pub proof fn capturing_never_switches(
    l: Listener,
    running: bool,
    c: ConfigView,
    event: InputEvent,
    now: u64,
)
    ensures
        heard(l, running, c, true, event, now).running == running,
        heard(l, running, c, true, event, now).listener == l,
{
}

/// In the hold mode the engine is on exactly while the hotkey is held, and only
/// a change is told.
pub proof fn hold_follows_the_key(l: Listener, running: bool, c: ConfigView, k: Key, now: u64)
    requires
        c.execution_mode == ExecutionMode::Hold,
        keymap::binding_key(c.execution_hotkey) == Some(k),
    ensures
        ({
            let down = heard(l, running, c, false, InputEvent::KeyPress(k), now);
            let up = heard(l, running, c, false, InputEvent::KeyRelease(k), now);
            &&& down.running && !up.running
            &&& down.msg == if running {
                None
            } else {
                Some(EngineMsg::Toggled(true))
            }
            &&& up.msg == if running {
                Some(EngineMsg::Toggled(false))
            } else {
                None
            }
        }),
{
}

} // verus!
