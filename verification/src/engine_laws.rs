//! What the macro loop and the global hotkeys do, stated in plain moments,
//! intervals and keys.

use vstd::prelude::*;

use crate::config::{ConfigView, ExecutionMode};
use crate::engine;
use crate::engine::{
    ActionView, DrawsView, Engine, EngineMsg, Listener, LoopView, PhaseView, RoundView, TickView,
    WaitStep,
};
use crate::keymap;
use crate::keymap::{Button, InputEvent, Key};

verus! {

// ---------------------------------------------------------------------------
// The two timers
// ---------------------------------------------------------------------------

/// A tick shoots exactly where the shot is due, and then the next shot is due
/// one shooting interval later; whether a weapon is switched makes no
/// difference to that.
pub proof fn shots_keep_their_own_time(
    r: RoundView,
    shoot_interval_ms: u64,
    now: u64,
    shot_ms: u64,
    slots: Seq<Seq<char>>,
    switch_ms: u64,
)
    requires
        shoot_interval_ms > 0,
    ensures
        ({
            let (after, t) = r.ticked(shoot_interval_ms, now, shot_ms, slots, switch_ms);
            &&& t is Act
            &&& t->shoot <==> now >= r.next_shot
            &&& t->shoot ==> after.next_shot == now + shot_ms * 1_000_000
            &&& !t->shoot ==> after.next_shot == r.next_shot
        }),
{
}

/// A tick switches to the weapon that comes next exactly where the switch is due
/// and there is a weapon, and then the next switch is due one switching interval
/// later; the weapons that are left stay in their order, and a new turn starts
/// only where none was left. A round ends only where there is no weapon at all.
pub proof fn switches_keep_their_own_time(
    r: RoundView,
    shoot_interval_ms: u64,
    now: u64,
    shot_ms: u64,
    slots: Seq<Seq<char>>,
    switch_ms: u64,
)
    requires
        shoot_interval_ms > 0,
    ensures
        ({
            let (after, t) = r.ticked(shoot_interval_ms, now, shot_ms, slots, switch_ms);
            let due = now >= r.next_switch;
            let none = r.queue.len() == 0 && slots.len() == 0;
            &&& t->switch is Some <==> due && !none
            &&& t->until is None <==> due && none
            &&& t->switch is Some && r.queue.len() > 0 ==> seq![t->switch->0] + after.queue
                == r.queue
            &&& t->switch is Some && r.queue.len() == 0 ==> seq![t->switch->0] + after.queue
                == slots
            &&& t->switch is Some ==> after.next_switch == now + switch_ms * 1_000_000
            &&& !due ==> after.queue == r.queue && after.next_switch == r.next_switch
        }),
{
    let (after, t) = r.ticked(shoot_interval_ms, now, shot_ms, slots, switch_ms);
    if t->switch is Some {
        if r.queue.len() > 0 {
            assert(seq![t->switch->0] + after.queue =~= r.queue);
        } else {
            assert(seq![t->switch->0] + after.queue =~= slots);
        }
    }
}

/// Neither timer is slept through: a tick waits for the nearer one of the next
/// shot and the next switch.
pub proof fn the_nearer_moment_is_waited_for(
    r: RoundView,
    shoot_interval_ms: u64,
    now: u64,
    shot_ms: u64,
    slots: Seq<Seq<char>>,
    switch_ms: u64,
)
    ensures
        ({
            let (after, t) = r.ticked(shoot_interval_ms, now, shot_ms, slots, switch_ms);
            t matches TickView::Act { until: Some(moment), .. } ==> {
                &&& moment <= after.next_shot
                &&& moment <= after.next_switch
                &&& moment == after.next_shot || moment == after.next_switch
            }
        }),
{
}

/// While the shooting interval is zero, a tick does nothing but pause; and only
/// then does it pause.
pub proof fn a_zero_interval_only_pauses(
    r: RoundView,
    shoot_interval_ms: u64,
    now: u64,
    shot_ms: u64,
    slots: Seq<Seq<char>>,
    switch_ms: u64,
)
    ensures
        ({
            let (after, t) = r.ticked(shoot_interval_ms, now, shot_ms, slots, switch_ms);
            &&& t is Pause <==> shoot_interval_ms == 0
            &&& t is Pause ==> after == r
        }),
{
}

/// A new round, and one that is scheduled anew, shoots at once and switches only
/// after the given delay; what is left of the weapons is kept.
pub proof fn a_schedule_starts_with_the_shot(r: RoundView, now: u64, switch_ms: u64)
    ensures
        RoundView::started(now, switch_ms).queue.len() == 0,
        RoundView::started(now, switch_ms).next_shot == now,
        RoundView::started(now, switch_ms).next_switch == now + switch_ms * 1_000_000,
        r.rescheduled(now, switch_ms).queue == r.queue,
        r.rescheduled(now, switch_ms).next_shot == now,
        r.rescheduled(now, switch_ms).next_switch == now + switch_ms * 1_000_000,
{
}

// ---------------------------------------------------------------------------
// The loop
// ---------------------------------------------------------------------------

/// The steps of the loop carry a tick out: the right mouse button is tapped where
/// the tick shoots, then the weapon where it switches, and then the loop waits
/// for the moment of the tick. Taps of a tick are made even where the engine
/// has been switched off meanwhile; the wait is not.
pub proof fn a_tick_is_carried_out(
    s: LoopView,
    running: bool,
    shoot_interval_ms: u64,
    now: u64,
    d: DrawsView,
)
    requires
        shoot_interval_ms > 0,
        s.phase is Tick,
    ensures
        ({
            let (round, t) = s.round.ticked(
                shoot_interval_ms,
                now,
                d.shot_ms,
                d.slots,
                d.switch_ms,
            );
            let (after, action) = s.stepped(running, shoot_interval_ms, now, d);
            &&& after.run == s.run
            &&& t->shoot ==> action == ActionView::Tap("MB2"@) && after.round == round
                && after.phase == (PhaseView::Taps { switch: t->switch, until: t->until })
            &&& !t->shoot && t->switch is Some ==> action == ActionView::Tap(t->switch->0)
                && after.round == round && after.phase == (PhaseView::Taps {
                switch: None,
                until: t->until,
            })
            &&& !t->shoot && t->switch is None && t->until is Some && running ==> action
                == ActionView::Until(t->until->0) && after.round == round && after.phase is Tick
            &&& !t->shoot && t->switch is None && !running ==> action is End
        }),
{
}

/// What is left of a tick: the weapon is tapped, then the loop waits where the
/// engine is on and ends where it is off.
pub proof fn the_taps_of_a_tick_are_finished(
    s: LoopView,
    running: bool,
    shoot_interval_ms: u64,
    now: u64,
    d: DrawsView,
)
    requires
        s.phase is Taps,
    ensures
        ({
            let (after, action) = s.stepped(running, shoot_interval_ms, now, d);
            match (s.phase->switch, s.phase->until) {
                (Some(binding), until) => action == ActionView::Tap(binding) && after.round
                    == s.round && after.phase == (PhaseView::Taps { switch: None, until }),
                (None, Some(moment)) => if running {
                    action == ActionView::Until(moment) && after.round == s.round
                        && after.phase is Tick
                } else {
                    action is End
                },
                (None, None) => (after, action) == LoopView {
                    phase: PhaseView::Start,
                    ..s
                }.stepped(running, shoot_interval_ms, now, d),
            }
        }),
{
}

/// A round of the loop begins with a tap of the right mouse button; the next shot
/// comes after the shooting interval and the first switch after the switching
/// interval, whichever is nearer first. Where the engine is off the loop ends.
pub proof fn a_round_begins_with_a_tap(
    s: LoopView,
    running: bool,
    shoot_interval_ms: u64,
    now: u64,
    d: DrawsView,
)
    requires
        s.phase is Start,
        d.first_ms > 0,
    ensures
        ({
            let (after, action) = s.stepped(running, shoot_interval_ms, now, d);
            let shot: int = now + d.shot_ms * 1_000_000;
            let switch: int = now + d.first_ms * 1_000_000;
            if !running {
                action is End
            } else if shoot_interval_ms == 0 {
                action is Rest
            } else {
                &&& action == ActionView::Tap("MB2"@)
                &&& after.round.queue.len() == 0
                &&& after.round.next_shot == shot
                &&& after.round.next_switch == switch
                &&& after.phase is Taps
                &&& after.phase->switch is None
                &&& after.phase->until == Some(
                    if shot <= switch {
                        shot as u128
                    } else {
                        switch as u128
                    },
                )
            }
        }),
{
}

/// A round whose first switch is due at once begins with the same tap, and the
/// first weapon follows it; the others stay queued, and the next switch comes
/// after a whole interval.
pub proof fn an_immediate_switch_follows_the_tap(
    s: LoopView,
    shoot_interval_ms: u64,
    now: u64,
    d: DrawsView,
)
    requires
        s.phase is Start,
        shoot_interval_ms > 0,
        d.first_ms == 0,
        d.slots.len() > 0,
    ensures
        ({
            let (after, action) = s.stepped(true, shoot_interval_ms, now, d);
            let shot: int = now + d.shot_ms * 1_000_000;
            let switch: int = now + d.switch_ms * 1_000_000;
            &&& action == ActionView::Tap("MB2"@)
            &&& after.round.queue == d.slots.skip(1)
            &&& after.round.next_shot == shot
            &&& after.round.next_switch == switch
            &&& after.phase is Taps
            &&& after.phase->switch == Some(d.slots[0])
            &&& after.phase->until == Some(
                if shot <= switch {
                    shot as u128
                } else {
                    switch as u128
                },
            )
        }),
{
    assert(d.slots.drop_first() =~= d.slots.skip(1));
}

/// A pause lasts 200 milliseconds, in stretches of fifty, and ends early where the
/// engine is switched off: what was rested and what is left always make up the
/// whole pause.
pub proof fn a_pause_is_rested_in_stretches(
    s: LoopView,
    running: bool,
    now: u64,
    d: DrawsView,
    left: u64,
)
    ensures
        ({
            let (after, action) = s.stepped(running, 0, now, d);
            &&& s.phase is Tick && running ==> after.phase is Pause && action
                == ActionView::Rest(50) && after.phase->left == 150
            &&& s.phase is Tick && !running ==> action is End
        }),
        ({
            let p = LoopView { phase: PhaseView::Pause { left }, ..s };
            let (after, action) = p.stepped(running, 0, now, d);
            &&& running && left > 0 ==> after.phase is Pause && action is Rest && action->Rest_0
                == (if left < 50 {
                left
            } else {
                50
            }) && action->Rest_0 + after.phase->left == left && after.round == p.round
            &&& !running ==> action is End
        }),
{
}

/// Once a pause is over, the loop goes on under the configuration of that
/// moment: it shoots at once, and it switches after the switching interval.
pub proof fn a_pause_ends_with_a_shot(
    s: LoopView,
    shoot_interval_ms: u64,
    now: u64,
    d: DrawsView,
)
    requires
        s.phase == (PhaseView::Pause { left: 0 }),
        shoot_interval_ms > 0,
        d.first_ms > 0,
    ensures
        ({
            let (after, action) = s.stepped(true, shoot_interval_ms, now, d);
            &&& action == ActionView::Tap("MB2"@)
            &&& after.round.queue == s.round.queue
            &&& after.round.next_shot == now + d.shot_ms * 1_000_000
            &&& after.round.next_switch == now + d.first_ms * 1_000_000
            &&& after.phase is Taps
            &&& after.phase->switch is None
            &&& after.phase->until == Some(
                if d.shot_ms <= d.first_ms {
                    (now + d.shot_ms * 1_000_000) as u128
                } else {
                    (now + d.first_ms * 1_000_000) as u128
                },
            )
        }),
{
}

/// A step of a loop goes by the switch and the shooting interval that the engine
/// has at that moment, as long as the engine is in the run of the loop.
pub proof fn the_live_engine_is_followed(s: LoopView, e: Engine, now: u64, d: DrawsView)
    ensures
        s.run == e.run ==> s.driven(e, now, d) == s.stepped(
            e.running,
            e.cfg@.shoot_interval_ms,
            now,
            d,
        ),
        s.run != e.run ==> s.driven(e, now, d).1 is End,
{
}

/// What is drawn follows the configuration: the times to a switch lie within the
/// offset of the switching interval, that to a shot within the offset of the
/// shooting interval, and the weapons are those of the execution order.
pub proof fn draws_follow_the_configuration(d: DrawsView, c: ConfigView)
    requires
        d.possible(c),
    ensures
        d.first_ms >= 1 && d.switch_ms >= 1 && d.shot_ms >= 1,
        c.weapon_switch_interval_ms > 0 ==> c.weapon_switch_interval_ms
            - c.weapon_switch_interval_offset_ms <= d.first_ms <= c.weapon_switch_interval_ms
            + c.weapon_switch_interval_offset_ms,
        c.weapon_switch_interval_ms > 0 ==> c.weapon_switch_interval_ms
            - c.weapon_switch_interval_offset_ms <= d.switch_ms <= c.weapon_switch_interval_ms
            + c.weapon_switch_interval_offset_ms,
        c.shoot_interval_ms > 0 ==> c.shoot_interval_ms - c.shoot_interval_offset_ms <= d.shot_ms
            <= c.shoot_interval_ms + c.shoot_interval_offset_ms,
        !c.random_execution ==> d.slots == engine::selected(c, c.execution_order),
        d.slots.to_multiset() == engine::selected(c, c.execution_order).to_multiset(),
{
    engine::jitter_stays_in_range(
        c.weapon_switch_interval_ms,
        c.weapon_switch_interval_offset_ms,
        d.first_ms,
    );
    engine::jitter_stays_in_range(
        c.weapon_switch_interval_ms,
        c.weapon_switch_interval_offset_ms,
        d.switch_ms,
    );
    engine::jitter_stays_in_range(c.shoot_interval_ms, c.shoot_interval_offset_ms, d.shot_ms);
    let ordered = engine::slots_in_order(c);
    if c.random_execution {
        let picks = choose|picks: Seq<usize>|
            #[trigger] engine::valid_picks(ordered.len(), picks) && d.slots == engine::shuffled(
                ordered,
                picks,
                picks.len(),
            );
        engine::shuffle_keeps_the_elements(ordered, picks);
    }
}

/// Exactly these intervals can be drawn: those that are at most the offset away
/// from the base, and no more than the base itself, but at least a millisecond.
pub proof fn all_intervals_around_the_base_are_possible(base: u64, offset: u64, ms: u64)
    ensures
        ({
            let away: int = if offset < base {
                offset as int
            } else {
                base as int
            };
            engine::possible_jitter(base, offset, ms) <==> ms >= 1 && (base - away <= ms <= base
                + away || (base == 0 && ms == 1))
        }),
{
    let away: int = if offset < base {
        offset as int
    } else {
        base as int
    };
    if ms >= 1 && base - away <= ms <= base + away {
        if ms >= base {
            let delta = (ms - base) as u64;
            assert(ms == engine::varied(base, delta, true));
        } else {
            let delta = (base - ms) as u64;
            assert(ms == engine::varied(base, delta, false));
        }
    }
    if base == 0 && ms == 1 {
        assert(ms == engine::varied(base, 0, true));
    }
    if engine::possible_jitter(base, offset, ms) {
        let (delta, up) = choose|delta: u64, up: bool|
            delta <= engine::offset_limit(base, offset) && ms == #[trigger] engine::varied(
                base,
                delta,
                up,
            );
        assert(ms == engine::varied(base, delta, up));
    }
}

/// A letter at the end of the execution order adds the weapon of its slot, the
/// first, second and third for `A`, `B` and `C`, where it stands there for the
/// first time and the slot has a binding; any other character adds nothing.
pub proof fn each_letter_adds_its_slot(c: ConfigView, order: Seq<char>, letter: char)
    ensures
        engine::selected(c, Seq::<char>::empty()).len() == 0,
        ({
            let before = engine::selected(c, order);
            let after = engine::selected(c, order.push(letter));
            let slot = if letter == 'A' {
                c.weapon_slot1
            } else if letter == 'B' {
                c.weapon_slot2
            } else {
                c.weapon_slot3
            };
            if (letter == 'A' || letter == 'B' || letter == 'C') && !order.contains(letter)
                && slot.len() > 0 {
                after == before.push(slot)
            } else {
                after == before
            }
        }),
{
    assert(order.push(letter).drop_last() =~= order);
}

/// A wait is over exactly when its moment has come. Before that it sleeps as long
/// as more than two milliseconds are left, and spins through the rest.
pub proof fn waits_meet_their_moment(now: u64, end: u128)
    ensures
        engine::waiting(now, end) == WaitStep::Done <==> now >= end,
        end >= 2_000_000 ==> (engine::waiting(now, end) == WaitStep::Sleep <==> now + 2_000_000
            < end),
{
}

// ---------------------------------------------------------------------------
// The hotkeys
// ---------------------------------------------------------------------------

/// A press of the quick-switch key, 300 milliseconds after the last one that
/// counted, always asks for the next configuration, whether the macro runs or
/// not; it leaves the macro alone. An earlier press does nothing.
pub proof fn the_quick_switch_key_is_always_heard(
    l: Listener,
    running: bool,
    c: ConfigView,
    k: Key,
    now: u64,
)
    requires
        keymap::binding_key(c.router_hotkey) == Some(k),
        keymap::binding_key(c.execution_hotkey) != Some(k),
    ensures
        ({
            let h = engine::heard(l, running, c, false, InputEvent::KeyPress(k), now);
            &&& h.running == running
            &&& h.listener.last_toggle == l.last_toggle
            &&& now - l.last_router >= 300_000_000 ==> h.msg == Some(EngineMsg::RouterNext)
                && h.listener.last_router == now
            &&& now - l.last_router < 300_000_000 ==> h.msg is None && h.listener == l
            &&& engine::heard(l, running, c, false, InputEvent::KeyRelease(k), now).msg is None
            &&& engine::heard(l, running, c, false, InputEvent::KeyRelease(k), now).listener == l
            &&& engine::heard(l, running, c, false, InputEvent::KeyRelease(k), now).running
                == running
        }),
{
}

/// In the toggle mode a press of the execution key, 300 milliseconds after the
/// last one that counted, flips the switch, and the new position is told. An
/// earlier press and a release do nothing. This holds even where the key is
/// the quick-switch key as well.
pub proof fn the_execution_key_toggles(
    l: Listener,
    running: bool,
    c: ConfigView,
    k: Key,
    now: u64,
)
    requires
        c.execution_mode == ExecutionMode::Toggle,
        keymap::binding_key(c.execution_hotkey) == Some(k),
    ensures
        ({
            let h = engine::heard(l, running, c, false, InputEvent::KeyPress(k), now);
            let up = engine::heard(l, running, c, false, InputEvent::KeyRelease(k), now);
            &&& h.listener.last_router == l.last_router
            &&& now - l.last_toggle >= 300_000_000 ==> h.running == !running && h.msg == Some(
                EngineMsg::Toggled(!running),
            ) && h.listener.last_toggle == now
            &&& now - l.last_toggle < 300_000_000 ==> h.running == running && h.msg is None
                && h.listener == l
            &&& up.running == running && up.msg is None && up.listener == l
        }),
{
}

/// In the hold mode the execution key leaves the debounce times alone.
pub proof fn holding_is_not_debounced(
    l: Listener,
    running: bool,
    c: ConfigView,
    k: Key,
    now: u64,
)
    requires
        c.execution_mode == ExecutionMode::Hold,
        keymap::binding_key(c.execution_hotkey) == Some(k),
    ensures
        engine::heard(l, running, c, false, InputEvent::KeyPress(k), now).listener == l,
        engine::heard(l, running, c, false, InputEvent::KeyRelease(k), now).listener == l,
        engine::heard(l, running, c, false, InputEvent::KeyPress(k), now).running,
        !engine::heard(l, running, c, false, InputEvent::KeyRelease(k), now).running,
{
}

/// No other key and no button does anything while nothing is captured.
pub proof fn other_input_is_ignored(
    l: Listener,
    running: bool,
    c: ConfigView,
    k: Key,
    b: Button,
    interacting: bool,
    now: u64,
)
    requires
        keymap::binding_key(c.execution_hotkey) != Some(k),
        keymap::binding_key(c.router_hotkey) != Some(k),
    ensures
        ({
            let press = engine::heard(l, running, c, false, InputEvent::KeyPress(k), now);
            let release = engine::heard(l, running, c, false, InputEvent::KeyRelease(k), now);
            let down = engine::heard(l, running, c, interacting, InputEvent::ButtonPress(b), now);
            let up = engine::heard(l, running, c, interacting, InputEvent::ButtonRelease(b), now);
            &&& press.msg is None && press.running == running && press.listener == l
            &&& release.msg is None && release.running == running && release.listener == l
            &&& down.msg is None && down.running == running && down.listener == l
            &&& up.msg is None && up.running == running && up.listener == l
        }),
{
}

/// While a binding is captured or a value edited, every key that is pressed goes
/// there, the hotkeys among them, and nothing else happens.
pub proof fn captured_keys_are_handed_on(
    l: Listener,
    running: bool,
    c: ConfigView,
    k: Key,
    now: u64,
)
    ensures
        ({
            let press = engine::heard(l, running, c, true, InputEvent::KeyPress(k), now);
            let release = engine::heard(l, running, c, true, InputEvent::KeyRelease(k), now);
            &&& press.msg == Some(EngineMsg::CaptureKey(k))
            &&& press.running == running && press.listener == l
            &&& release.msg is None && release.running == running && release.listener == l
        }),
{
}

/// The switch takes the position that it is put into and leaves the
/// configuration alone. Only switching on from off begins another run.
pub proof fn the_switch_is_put_into_position(e: Engine, on: bool)
    ensures
        e.switched(on).running == on,
        e.switched(on).cfg == e.cfg,
        e.switched(on).run != e.run <==> on && !e.running,
{
}

// ---------------------------------------------------------------------------
// Shuffling
// ---------------------------------------------------------------------------

proof fn lemma_any_order<T>(s: Seq<T>, p: Seq<T>, k: nat) -> (picks: Seq<usize>)
    requires
        s.len() == p.len(),
        s.len() <= usize::MAX,
        s.to_multiset() == p.to_multiset(),
        k <= if s.len() == 0 {
            0
        } else {
            s.len() - 1
        },
    ensures
        picks.len() == k,
        forall|i: int| 0 <= i < k ==> (#[trigger] picks[i]) <= s.len() - 1 - i,
        engine::shuffled(s, picks, k).len() == s.len(),
        engine::shuffled(s, picks, k).skip(s.len() - k) == p.skip(s.len() - k),
        engine::shuffled(s, picks, k).take(s.len() - k).to_multiset() == p.take(
            s.len() - k,
        ).to_multiset(),
    decreases k,
{
    broadcast use vstd::seq_lib::group_to_multiset_ensures;

    let n = s.len() as int;
    if k == 0 {
        assert(s.take(n) =~= s);
        assert(p.take(n) =~= p);
        assert(s.skip(n) =~= p.skip(n));
        Seq::<usize>::empty()
    } else {
        let i = (k - 1) as nat;
        let before = lemma_any_order(s, p, i);
        let t = engine::shuffled(s, before, i);
        let pos = n - 1 - i;
        let head = t.take(pos + 1);
        let goal = p.take(pos + 1);
        assert(goal[pos] == p[pos]);
        assert(goal.contains(p[pos]));
        assert(goal.to_multiset().contains(p[pos]));
        assert(head.to_multiset().contains(p[pos]));
        assert(head.contains(p[pos]));
        let j = choose|j: int| 0 <= j < head.len() && head[j] == p[pos];
        let picks = before.push(j as usize);
        lemma_same_shuffle(s, before, picks, i);
        let now = engine::shuffled(s, picks, k);
        assert(picks[i as int] == j as usize);
        assert(now == engine::exchanged(t, pos, j));
        let swapped = engine::exchanged(head, pos, j);
        lemma_exchange(head, pos, j);
        assert(now.take(pos + 1) =~= swapped);
        assert(swapped[pos] == p[pos]);
        assert(swapped =~= now.take(pos).push(p[pos]));
        assert(goal =~= p.take(pos).push(p[pos]));
        assert(now.take(pos).to_multiset().insert(p[pos]) == p.take(pos).to_multiset().insert(
            p[pos],
        ));
        assert(now.take(pos).to_multiset() =~= now.take(pos).to_multiset().insert(
            p[pos],
        ).remove(p[pos]));
        assert(p.take(pos).to_multiset() =~= p.take(pos).to_multiset().insert(p[pos]).remove(
            p[pos],
        ));
        assert(now.skip(pos) =~= p.skip(pos)) by {
            assert forall|x: int| 0 <= x < n - pos implies now.skip(pos)[x] == p.skip(pos)[x] by {
                if x > 0 {
                    assert(now[pos + x] == t[pos + x]);
                    assert(t.skip(pos + 1)[x - 1] == p.skip(pos + 1)[x - 1]);
                }
            }
        }
        picks
    }
}

proof fn lemma_exchange<T>(s: Seq<T>, i: int, j: int)
    requires
        0 <= i < s.len(),
        0 <= j < s.len(),
    ensures
        engine::exchanged(s, i, j).to_multiset() == s.to_multiset(),
        engine::exchanged(s, i, j).len() == s.len(),
{
    broadcast use vstd::seq_lib::group_to_multiset_ensures;

    let a = s.update(i, s[j]);
    vstd::seq_lib::to_multiset_update(s, i, s[j]);
    vstd::seq_lib::to_multiset_update(a, j, s[i]);
    assert(s.contains(s[i]));
    assert(s.contains(s[j]));
    assert(a[j] == s[j]);
    assert(engine::exchanged(s, i, j).to_multiset() =~= s.to_multiset());
}

proof fn lemma_same_shuffle<T>(s: Seq<T>, a: Seq<usize>, b: Seq<usize>, k: nat)
    requires
        k <= a.len(),
        k <= b.len(),
        forall|i: int| 0 <= i < k ==> a[i] == b[i],
    ensures
        engine::shuffled(s, a, k) == engine::shuffled(s, b, k),
    decreases k,
{
    if k > 0 {
        lemma_same_shuffle(s, a, b, (k - 1) as nat);
        assert(a[k - 1] == b[k - 1]);
    }
}

/// A shuffle can lead to any order: whatever order the elements are to have, some
/// draws give it.
pub proof fn every_order_is_possible<T>(s: Seq<T>, p: Seq<T>) -> (picks: Seq<usize>)
    requires
        s.len() <= usize::MAX,
        s.to_multiset() == p.to_multiset(),
    ensures
        engine::valid_picks(s.len(), picks),
        engine::shuffled(s, picks, picks.len()) == p,
{
    broadcast use vstd::seq_lib::group_to_multiset_ensures;

    assert(s.to_multiset().len() == s.len());
    assert(p.to_multiset().len() == p.len());
    let n = s.len() as int;
    if n == 0 {
        assert(s =~= p);
        Seq::<usize>::empty()
    } else {
        let k = (n - 1) as nat;
        let picks = lemma_any_order(s, p, k);
        let t = engine::shuffled(s, picks, k);
        let a = t.take(1);
        let b = p.take(1);
        assert(a.contains(a[0]));
        assert(a.to_multiset().contains(a[0]));
        assert(b.to_multiset().contains(a[0]));
        assert(b.contains(a[0]));
        assert(a[0] == b[0]);
        assert(t =~= p) by {
            assert forall|x: int| 0 <= x < n implies t[x] == p[x] by {
                if x == 0 {
                    assert(t[0] == a[0]);
                } else {
                    assert(t.skip(1)[x - 1] == p.skip(1)[x - 1]);
                }
            }
        }
        picks
    }
}

} // verus!
