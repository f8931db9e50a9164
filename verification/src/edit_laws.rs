//! What the keys, the mouse and the messages of the background threads do,
//! stated field by field.

use vstd::prelude::*;

use crate::config;
use crate::config::{ConfigView, ExecutionMode};
use crate::edit::{Event, KeyCode};
use crate::engine::EngineMsg;
use crate::fields;
use crate::fields::FieldKind;
use crate::flow::{ReplyView, RequestView};
use crate::keymap;
use crate::keymap::{Button, Key};
use crate::lang::Lang;
use crate::state::{AppView, DialogKind, ModeView, MsgKind, TaskView};
use crate::text;
use crate::watcher::Mtime;

verus! {

// ---------------------------------------------------------------------------
// The focus
// ---------------------------------------------------------------------------

/// A press of a key.
pub open spec fn pressed(code: KeyCode) -> Event {
    Event::Key { code, press: true }
}

/// Tab and the right arrow go to the next of the sixteen fields, shift-tab and
/// the left arrow to the one before; the message goes away, and nothing else
/// changes.
pub proof fn side_keys_move_the_focus(s: AppView)
    requires
        s.mode is Normal,
        s.focus < 16,
    ensures
        ({
            let right = s.on_event(pressed(KeyCode::Right));
            let left = s.on_event(pressed(KeyCode::Left));
            &&& right.0.focus == if s.focus == 15 {
                0
            } else {
                s.focus + 1
            }
            &&& left.0.focus == if s.focus == 0 {
                15
            } else {
                s.focus - 1
            }
            &&& s.on_event(pressed(KeyCode::Tab)) == right
            &&& s.on_event(pressed(KeyCode::BackTab)) == left
            &&& right.0 == (AppView { focus: right.0.focus, status: None, ..s })
            &&& left.0 == (AppView { focus: left.0.focus, status: None, ..s })
            &&& right.1 is None && left.1 is None
        }),
{
}

/// The fields stand in rows of three, two, three, two, two and four. Down and up
/// go to the neighbouring row, to the same column or to the last one that there
/// is; at the first and at the last row nothing moves.
pub proof fn up_and_down_go_to_the_next_row(s: AppView)
    requires
        s.mode is Normal,
        s.focus < 16,
    ensures
        ({
            let down = s.on_event(pressed(KeyCode::Down));
            let up = s.on_event(pressed(KeyCode::Up));
            &&& down.0 == (AppView { focus: down.0.focus, status: None, ..s })
            &&& up.0 == (AppView { focus: up.0.focus, status: None, ..s })
            &&& down.1 is None && up.1 is None
            &&& s.focus == 0 ==> down.0.focus == 3 && up.0.focus == 0
            &&& s.focus == 1 ==> down.0.focus == 4 && up.0.focus == 1
            &&& s.focus == 2 ==> down.0.focus == 4 && up.0.focus == 2
            &&& s.focus == 3 ==> down.0.focus == 5 && up.0.focus == 0
            &&& s.focus == 4 ==> down.0.focus == 6 && up.0.focus == 1
            &&& s.focus == 5 ==> down.0.focus == 8 && up.0.focus == 3
            &&& s.focus == 6 ==> down.0.focus == 9 && up.0.focus == 4
            &&& s.focus == 7 ==> down.0.focus == 9 && up.0.focus == 4
            &&& s.focus == 8 ==> down.0.focus == 10 && up.0.focus == 5
            &&& s.focus == 9 ==> down.0.focus == 11 && up.0.focus == 6
            &&& s.focus == 10 ==> down.0.focus == 12 && up.0.focus == 8
            &&& s.focus == 11 ==> down.0.focus == 13 && up.0.focus == 9
            &&& s.focus == 12 ==> down.0.focus == 12 && up.0.focus == 10
            &&& s.focus == 13 ==> down.0.focus == 13 && up.0.focus == 11
            &&& s.focus == 14 ==> down.0.focus == 14 && up.0.focus == 11
            &&& s.focus == 15 ==> down.0.focus == 15 && up.0.focus == 11
        }),
{
}

/// Escape quits where nothing is edited, and changes nothing else. The release of
/// a key, and an event that means nothing, change nothing at all.
pub proof fn escape_quits(s: AppView, code: KeyCode)
    ensures
        s.mode is Normal ==> s.on_event(pressed(KeyCode::Esc)) == (
            AppView { should_quit: true, ..s },
            None::<DialogKind>,
        ),
        s.on_event(Event::Key { code, press: false }) == (s, None::<DialogKind>),
        s.on_event(Event::Other) == (s, None::<DialogKind>),
        s.mode is Normal ==> forall|c: char| #[trigger]
            s.on_event(pressed(KeyCode::Char(c))) == (s, None::<DialogKind>),
        s.mode is Normal ==> forall|b: Button| #[trigger]
            s.on_event(Event::MouseDown(b)) == (s, None::<DialogKind>),
{
}

// ---------------------------------------------------------------------------
// Enter
// ---------------------------------------------------------------------------

/// Enter on one of the five bindings captures a new one; on the execution order
/// it edits the order, and on one of the four numbers that number, each starting
/// with what is there. Nothing is changed by that.
pub proof fn enter_begins_an_edit(s: AppView)
    requires
        s.mode is Normal,
        s.focus <= 11,
        s.focus != 6 && s.focus != 7,
    ensures
        ({
            let (after, dialog) = s.on_event(pressed(KeyCode::Enter));
            &&& dialog is None
            &&& after == (AppView { mode: after.mode, status: None, ..s })
            &&& s.focus <= 4 ==> after.mode == (ModeView::Capture { field: s.focus })
            &&& s.focus == 5 ==> after.mode == (ModeView::OrderEdit {
                field: 5,
                buf: s.cfg.execution_order,
            })
            &&& s.focus >= 8 ==> after.mode is Edit && after.mode->Edit_field == s.focus
            &&& s.focus == 8 ==> text::number_u64(after.mode->Edit_buf) == Some(
                s.cfg.weapon_switch_interval_ms,
            )
            &&& s.focus == 9 ==> text::number_u64(after.mode->Edit_buf) == Some(
                s.cfg.weapon_switch_interval_offset_ms,
            )
            &&& s.focus == 10 ==> text::number_u64(after.mode->Edit_buf) == Some(
                s.cfg.shoot_interval_ms,
            )
            &&& s.focus == 11 ==> text::number_u64(after.mode->Edit_buf) == Some(
                s.cfg.shoot_interval_offset_ms,
            )
        }),
{
    if s.focus >= 8 {
        text::number_of_decimal(fields::number_of(s.cfg, s.focus));
    }
}

/// Enter on the execution mode changes between holding and toggling, and on the
/// random order between on and off: this is all that changes in the
/// configuration, which is then saved. Twice leads back.
pub proof fn enter_flips_a_switch(s: AppView)
    requires
        s.mode is Normal,
        s.focus == 6 || s.focus == 7,
    ensures
        ({
            let (after, dialog) = s.on_event(pressed(KeyCode::Enter));
            &&& dialog is None
            &&& after == (AppView {
                cfg: after.cfg,
                status: after.status,
                task: TaskView::AutoSave,
                ..s
            })
            &&& after.status matches Some(m)
            &&& m.kind == MsgKind::Success
            &&& s.focus == 6 ==> after.cfg == (ConfigView {
                execution_mode: after.cfg.execution_mode,
                ..s.cfg
            }) && after.cfg.execution_mode != s.cfg.execution_mode
            &&& s.focus == 7 ==> after.cfg == (ConfigView {
                random_execution: !s.cfg.random_execution,
                ..s.cfg
            })
        }),
{
}

/// Enter on one of the first three operations opens its dialog: export, load and
/// router.
pub proof fn enter_opens_a_dialog(s: AppView)
    requires
        s.mode is Normal,
        12 <= s.focus <= 14,
    ensures
        s.on_event(pressed(KeyCode::Enter)).0 == (AppView { status: None, ..s }),
        s.focus == 12 ==> s.on_event(pressed(KeyCode::Enter)).1 == Some(DialogKind::Export),
        s.focus == 13 ==> s.on_event(pressed(KeyCode::Enter)).1 == Some(DialogKind::Load),
        s.focus == 14 ==> s.on_event(pressed(KeyCode::Enter)).1 == Some(DialogKind::Router),
{
}

/// Enter on the last operation switches to the other language, tells that in it,
/// and saves it with the session; nothing else changes, and twice leads back.
pub proof fn enter_switches_the_language(s: AppView, r: Result<(), Seq<char>>)
    requires
        s.mode is Normal,
        s.focus == 15,
    ensures
        ({
            let (after, dialog) = s.on_event(pressed(KeyCode::Enter));
            let saved = after.resumed(ReplyView::Done(r));
            &&& dialog is None
            &&& after.l() != s.l()
            &&& after.lang.with(s.l()) == s.lang
            &&& after == (AppView {
                lang: after.lang,
                status: after.status,
                task: TaskView::LangSession,
                ..s
            })
            &&& after.wanted() matches Some(RequestView::SaveSession { state })
            &&& state.language == Some(after.l())
            &&& state.last_config == s.config_source
            &&& state.last_router == s.router_path
            &&& state.router_index == s.router_index
            &&& saved.task is Idle
            &&& saved.lang == after.lang
            &&& saved.cfg == s.cfg
            &&& after.l() == Lang::En ==> after.status->0.text == "Language switched to English"@
            &&& after.l() == Lang::Zh ==> after.status->0.text == "语言已切换为中文"@
        }),
{
    reveal(AppView::resumed_done);
}

// ---------------------------------------------------------------------------
// Capturing and editing
// ---------------------------------------------------------------------------

/// While a binding is captured, a pressed mouse button is taken by its name, and
/// so is a key from the global listener that has one; escape leaves the capture.
/// The keys of the terminal do nothing.
pub proof fn a_captured_input_is_bound(
    s: AppView,
    field: usize,
    b: Button,
    k: Key,
    code: KeyCode,
    press: bool,
)
    requires
        s.mode == (ModeView::Capture { field }),
    ensures
        s.on_event(Event::MouseDown(b)) == (
            s.bound(field, keymap::button_label(b)),
            None::<DialogKind>,
        ),
        s.on_event(Event::Key { code, press }) == (s, None::<DialogKind>),
        k != Key::Escape && keymap::key_label(k) is Some ==> s.on_message(
            EngineMsg::CaptureKey(k),
        ) == s.bound(field, keymap::key_label(k)->0),
        k != Key::Escape && keymap::key_label(k) is None ==> s.on_message(
            EngineMsg::CaptureKey(k),
        ) == s,
        s.on_message(EngineMsg::CaptureKey(Key::Escape)) == (AppView {
            mode: ModeView::Normal,
            status: None,
            ..s
        }),
{
}

/// A binding goes into its own field: the three weapon slots, the execution
/// hotkey and the quick-switch hotkey, in this order.
pub proof fn bindings_go_into_their_fields(c: ConfigView, name: Seq<char>)
    ensures
        fields::with_binding(c, 0, name) == (ConfigView { weapon_slot1: name, ..c }),
        fields::with_binding(c, 1, name) == (ConfigView { weapon_slot2: name, ..c }),
        fields::with_binding(c, 2, name) == (ConfigView { weapon_slot3: name, ..c }),
        fields::with_binding(c, 3, name) == (ConfigView { execution_hotkey: name, ..c }),
        fields::with_binding(c, 4, name) == (ConfigView { router_hotkey: name, ..c }),
        fields::binding_of(c, 0) == c.weapon_slot1,
        fields::binding_of(c, 1) == c.weapon_slot2,
        fields::binding_of(c, 2) == c.weapon_slot3,
        fields::binding_of(c, 3) == c.execution_hotkey,
        fields::binding_of(c, 4) == c.router_hotkey,
{
}

/// A binding that one of the other four fields has is refused, whichever of them
/// it is. Any other is set in its field and saved, and the capture is over;
/// nothing else changes.
pub proof fn a_binding_belongs_to_one_field(s: AppView, field: usize, name: Seq<char>)
    requires
        field <= 4,
    ensures
        ({
            let after = s.bound(field, name);
            let taken = (field != 0 && s.cfg.weapon_slot1 == name) || (field != 1
                && s.cfg.weapon_slot2 == name) || (field != 2 && s.cfg.weapon_slot3 == name) || (
            field != 3 && s.cfg.execution_hotkey == name) || (field != 4 && s.cfg.router_hotkey
                == name);
            if taken {
                &&& after == (AppView { status: after.status, ..s })
                &&& after.status matches Some(m)
                &&& m.kind == MsgKind::Failure
            } else {
                &&& after == (AppView {
                    cfg: after.cfg,
                    mode: ModeView::Normal,
                    status: after.status,
                    task: TaskView::AutoSave,
                    ..s
                })
                &&& field == 0 ==> after.cfg == (ConfigView { weapon_slot1: name, ..s.cfg })
                &&& field == 1 ==> after.cfg == (ConfigView { weapon_slot2: name, ..s.cfg })
                &&& field == 2 ==> after.cfg == (ConfigView { weapon_slot3: name, ..s.cfg })
                &&& field == 3 ==> after.cfg == (ConfigView { execution_hotkey: name, ..s.cfg })
                &&& field == 4 ==> after.cfg == (ConfigView { router_hotkey: name, ..s.cfg })
                &&& after.status matches Some(m)
                &&& m.kind == MsgKind::Success
            }
        }),
{
    reveal_with_fuel(fields::holder, 7);
}

/// While a number is edited, a digit is added at the end, backspace takes the
/// last one away, and escape leaves the edit; no other input does anything.
pub proof fn digits_are_entered(s: AppView, field: usize, buf: Seq<char>, c: char, b: Button)
    requires
        s.mode == (ModeView::Edit { field, buf }),
    ensures
        ({
            let typed = s.on_event(pressed(KeyCode::Char(c)));
            let back = s.on_event(pressed(KeyCode::Backspace));
            &&& typed.0 == if '0' <= c && c <= '9' {
                AppView { mode: ModeView::Edit { field, buf: buf.push(c) }, ..s }
            } else {
                s
            }
            &&& back.0 == (AppView { mode: back.0.mode, ..s })
            &&& back.0.mode is Edit && back.0.mode->Edit_field == field
            &&& buf.len() > 0 ==> back.0.mode->Edit_buf == buf.take(buf.len() - 1)
            &&& buf.len() == 0 ==> back.0.mode->Edit_buf == buf
            &&& s.on_event(pressed(KeyCode::Esc)).0 == (AppView {
                mode: ModeView::Normal,
                status: None,
                ..s
            })
            &&& s.on_event(Event::MouseDown(b)).0 == s
            &&& s.on_event(pressed(KeyCode::Tab)).0 == s
            &&& s.on_event(pressed(KeyCode::Left)).0 == s
            &&& s.on_event(pressed(KeyCode::Right)).0 == s
            &&& s.on_event(pressed(KeyCode::Up)).0 == s
            &&& s.on_event(pressed(KeyCode::Down)).0 == s
            &&& forall|k: Key| #[trigger] s.on_message(EngineMsg::CaptureKey(k)) == s
        }),
{
    if buf.len() > 0 {
        assert(buf.drop_last() =~= buf.take(buf.len() - 1));
    }
}

/// Enter takes the number over into the field that is edited, where it is the
/// only thing that changes, and saves it. A main interval of zero is refused,
/// and the edit goes on; an offset may be zero. What is no number counts as
/// zero.
pub proof fn an_entered_number_is_taken_over(s: AppView, field: usize, buf: Seq<char>)
    requires
        s.mode == (ModeView::Edit { field, buf }),
        8 <= field <= 11,
    ensures
        ({
            let (after, dialog) = s.on_event(pressed(KeyCode::Enter));
            let v: u64 = if text::number_u64(buf) is Some {
                text::number_u64(buf)->0
            } else {
                0
            };
            &&& dialog is None
            &&& if v == 0 && (field == 8 || field == 10) {
                &&& after == (AppView { status: after.status, ..s })
                &&& after.status matches Some(m)
                &&& m.kind == MsgKind::Failure
            } else {
                &&& after == (AppView {
                    cfg: after.cfg,
                    mode: ModeView::Normal,
                    status: after.status,
                    task: TaskView::AutoSave,
                    ..s
                })
                &&& field == 8 ==> after.cfg == (ConfigView {
                    weapon_switch_interval_ms: v,
                    ..s.cfg
                })
                &&& field == 9 ==> after.cfg == (ConfigView {
                    weapon_switch_interval_offset_ms: v,
                    ..s.cfg
                })
                &&& field == 10 ==> after.cfg == (ConfigView { shoot_interval_ms: v, ..s.cfg })
                &&& field == 11 ==> after.cfg == (ConfigView {
                    shoot_interval_offset_ms: v,
                    ..s.cfg
                })
                &&& after.status matches Some(m)
                &&& m.kind == MsgKind::Success
            }
        }),
{
}

/// While the execution order is edited, a letter that is not there yet is added
/// at the end, one that is there is refused, and backspace takes the last one
/// away. The keys of the terminal and the mouse do nothing, and neither does
/// any other key.
pub proof fn letters_are_entered(s: AppView, field: usize, buf: Seq<char>, k: Key, ev: Event)
    requires
        s.mode == (ModeView::OrderEdit { field, buf }),
    ensures
        s.on_event(ev) == (s, None::<DialogKind>),
        ({
            let after = s.on_message(EngineMsg::CaptureKey(k));
            let letter = if k == Key::KeyA {
                'A'
            } else if k == Key::KeyB {
                'B'
            } else {
                'C'
            };
            &&& k == Key::KeyA || k == Key::KeyB || k == Key::KeyC ==> if buf.len() < 3
                && !buf.contains(letter) {
                after == (AppView {
                    mode: ModeView::OrderEdit { field, buf: buf.push(letter) },
                    status: None,
                    ..s
                })
            } else {
                &&& after == (AppView { status: after.status, ..s })
                &&& after.status matches Some(m)
                &&& m.kind == MsgKind::Failure
            }
            &&& k == Key::Backspace && buf.len() > 0 ==> after == (AppView {
                mode: ModeView::OrderEdit { field, buf: buf.take(buf.len() - 1) },
                ..s
            })
            &&& k == Key::Backspace && buf.len() == 0 ==> after == s
            &&& !(k == Key::KeyA || k == Key::KeyB || k == Key::KeyC || k == Key::Backspace || k
                == Key::Return || k == Key::Escape) ==> after == s
        }),
{
    if buf.len() > 0 {
        assert(buf.drop_last() =~= buf.take(buf.len() - 1));
    }
}

/// Return takes an execution order of one to three different letters `A`, `B` and
/// `C` over, where it is the only thing that changes, and saves it; any other is
/// refused, and the edit goes on. Escape leaves the edit.
pub proof fn a_confirmed_order_is_taken_over(s: AppView, field: usize, buf: Seq<char>)
    requires
        s.mode == (ModeView::OrderEdit { field, buf }),
    ensures
        ({
            let after = s.on_message(EngineMsg::CaptureKey(Key::Return));
            let good = 1 <= buf.len() <= 3 && (forall|i: int|
                0 <= i < buf.len() ==> buf[i] == 'A' || buf[i] == 'B' || #[trigger] buf[i] == 'C')
                && (forall|i: int, j: int| 0 <= i < j < buf.len() ==> buf[i] != buf[j]);
            if good {
                &&& after == (AppView {
                    cfg: ConfigView { execution_order: buf, ..s.cfg },
                    mode: ModeView::Normal,
                    status: after.status,
                    task: TaskView::AutoSave,
                    ..s
                })
                &&& after.status matches Some(m)
                &&& m.kind == MsgKind::Success
            } else {
                &&& after == (AppView { status: after.status, ..s })
                &&& after.status matches Some(m)
                &&& m.kind == MsgKind::Failure
            }
        }),
        s.on_message(EngineMsg::CaptureKey(Key::Escape)) == (AppView {
            mode: ModeView::Normal,
            status: None,
            ..s
        }),
{
    let c = ConfigView {
        execution_order: buf,
        shoot_interval_ms: 1,
        weapon_switch_interval_ms: 1,
        ..s.cfg
    };
    config::the_rules_decide(s.l(), c, Seq::<char>::empty());
}

/// A key from the global listener does nothing where nothing is captured.
pub proof fn late_keys_do_nothing(s: AppView, k: Key)
    requires
        s.mode is Normal,
    ensures
        s.on_message(EngineMsg::CaptureKey(k)) == s,
{
}

// ---------------------------------------------------------------------------
// Messages
// ---------------------------------------------------------------------------

/// That the macro was started or stopped is told, and changes nothing else.
pub proof fn the_switch_is_told(s: AppView, on: bool)
    ensures
        ({
            let after = s.on_message(EngineMsg::Toggled(on));
            &&& after == (AppView { status: after.status, ..s })
            &&& after.status matches Some(m)
            &&& m.kind == if on {
                MsgKind::Success
            } else {
                MsgKind::Info
            }
            &&& m.text == match (on, s.l()) {
                (true, Lang::Zh) => "执行已开始 (切到游戏窗口生效)"@,
                (true, Lang::En) =>
                    "Execution started (switch to the game window to take effect)"@,
                (false, Lang::Zh) => "执行已停止"@,
                (false, Lang::En) => "Execution stopped"@,
            }
        }),
{
}

/// The quick-switch hotkey reads the entry behind the active one, the first one
/// behind the last; without a router table that is told, and nothing is read.
pub proof fn the_next_entry_is_read(s: AppView)
    requires
        s.task is Idle,
        s.router_index < s.router_files.len() || s.router_files.len() == 0,
        s.router_files.len() <= usize::MAX,
    ensures
        ({
            let after = s.on_message(EngineMsg::RouterNext);
            let next = if s.router_index + 1 < s.router_files.len() {
                s.router_index + 1
            } else {
                0
            };
            &&& after == (AppView { status: after.status, task: after.task, ..s })
            &&& s.router_files.len() > 0 ==> after.wanted() == Some(
                RequestView::LoadConfig { path: s.router_files[next].path },
            )
            &&& s.router_files.len() == 0 ==> after.wanted() is None && (
            after.status matches Some(m) && m.kind == MsgKind::Failure)
        }),
{
    if s.router_files.len() > 0 {
        let n = s.router_files.len() as int;
        if s.router_index + 1 < n {
            vstd::arithmetic::div_mod::lemma_small_mod((s.router_index + 1) as nat, n as nat);
        } else {
            vstd::arithmetic::div_mod::lemma_mod_self_0(n);
        }
    }
}

/// A change of the active file from outside is picked up, whatever else the state
/// is: at the notice of the watcher the file is looked at; where its time is
/// another one it is read; and where it keeps the rules it is in use from then
/// on, for the engine too. Nothing else changes.
pub proof fn a_changed_file_is_picked_up(s: AppView, path: Seq<char>, t: Mtime, c: ConfigView)
    requires
        s.task is Idle,
        s.config_source == Some(path),
        s.config_mtime != Some(t),
        config::keeps_the_rules(c),
    ensures
        ({
            let noticed = s.on_message(EngineMsg::ConfigReload);
            let stamped = noticed.resumed(ReplyView::Stamp(Some(t)));
            let after = stamped.resumed(ReplyView::Loaded(Ok(c)));
            &&& noticed.wanted() == Some(RequestView::Stat { path })
            &&& stamped.wanted() == Some(RequestView::LoadConfig { path })
            &&& after == (AppView {
                cfg: c,
                shared: c,
                config_mtime: Some(t),
                watched: Some(path),
                status: after.status,
                ..s
            })
            &&& after.status matches Some(m)
            &&& m.kind == MsgKind::Success
        }),
{
    config::the_rules_decide(s.l(), c, Seq::<char>::empty());
    reveal(AppView::resumed_stamped);
    reveal(AppView::resumed_loaded);
}

/// A notice about a file that has the same time as before changes nothing, and
/// neither does one where no file is active. A file that is gone is told once,
/// and one that cannot be used is told; the configuration stays.
pub proof fn other_notices_change_nothing(
    s: AppView,
    t: Mtime,
    r: Result<ConfigView, Seq<char>>,
)
    requires
        s.task is Idle,
    ensures
        s.config_source is None ==> s.on_message(EngineMsg::ConfigReload) == s,
        s.config_source is Some ==> ({
            let noticed = s.on_message(EngineMsg::ConfigReload);
            let gone = noticed.resumed(ReplyView::Stamp(None));
            let bad = noticed.resumed(ReplyView::Stamp(Some(t))).resumed(ReplyView::Loaded(r));
            &&& s.config_mtime == Some(t) ==> noticed.resumed(ReplyView::Stamp(Some(t))) == s
            &&& gone == (AppView { config_mtime: None, status: gone.status, ..s })
            &&& s.config_mtime is None ==> gone == s
            &&& s.config_mtime is Some ==> (gone.status matches Some(m) && m.kind
                == MsgKind::Failure)
            &&& s.config_mtime != Some(t) && (r matches Ok(c) ==> !config::keeps_the_rules(c))
                ==> bad == (AppView { status: bad.status, ..s }) && (bad.status matches Some(m)
                && m.kind == MsgKind::Failure)
        }),
{
    match r {
        Ok(c) => config::the_rules_decide(s.l(), c, Seq::<char>::empty()),
        Err(e) => {},
    }
    reveal(AppView::resumed_stamped);
    reveal(AppView::resumed_loaded);
}

// ---------------------------------------------------------------------------
// What the fields show
// ---------------------------------------------------------------------------

/// A field shows what the configuration holds: a binding and the execution order
/// as they are, a number in decimal notation, and a switch by the name of its
/// position.
pub proof fn fields_show_the_configuration(l: Lang, c: ConfigView)
    ensures
        fields::value_of(l, c, 0) == c.weapon_slot1,
        fields::value_of(l, c, 1) == c.weapon_slot2,
        fields::value_of(l, c, 2) == c.weapon_slot3,
        fields::value_of(l, c, 3) == c.execution_hotkey,
        fields::value_of(l, c, 4) == c.router_hotkey,
        fields::value_of(l, c, 5) == c.execution_order,
        fields::value_of(l, c, 6) == match (c.execution_mode, l) {
            (ExecutionMode::Hold, Lang::Zh) => "长按"@,
            (ExecutionMode::Hold, Lang::En) => "Hold"@,
            (ExecutionMode::Toggle, Lang::Zh) => "切换"@,
            (ExecutionMode::Toggle, Lang::En) => "Toggle"@,
        },
        fields::value_of(l, c, 7) == match (c.random_execution, l) {
            (true, Lang::Zh) => "开"@,
            (true, Lang::En) => "ON"@,
            (false, Lang::Zh) => "关"@,
            (false, Lang::En) => "OFF"@,
        },
        text::number_u64(fields::value_of(l, c, 8)) == Some(c.weapon_switch_interval_ms),
        text::number_u64(fields::value_of(l, c, 9)) == Some(c.weapon_switch_interval_offset_ms),
        text::number_u64(fields::value_of(l, c, 10)) == Some(c.shoot_interval_ms),
        text::number_u64(fields::value_of(l, c, 11)) == Some(c.shoot_interval_offset_ms),
        forall|f: usize| 12 <= f < 16 ==> (#[trigger] fields::value_of(l, c, f)).len() == 0,
{
    text::number_of_decimal(c.weapon_switch_interval_ms);
    text::number_of_decimal(c.weapon_switch_interval_offset_ms);
    text::number_of_decimal(c.shoot_interval_ms);
    text::number_of_decimal(c.shoot_interval_offset_ms);
    reveal_strlit("");
}

/// The fields are called by what they hold, in either language; the operation
/// that switches the language is called in the other one.
pub proof fn fields_have_their_names()
    ensures
        fields::label_of(Lang::En, 0) == "Weapon Slot #1"@,
        fields::label_of(Lang::En, 1) == "Weapon Slot #2"@,
        fields::label_of(Lang::En, 2) == "Weapon Slot #3"@,
        fields::label_of(Lang::En, 3) == "Execution Hotkey"@,
        fields::label_of(Lang::En, 4) == "Quick-switch Hotkey"@,
        fields::label_of(Lang::En, 5) == "Execution Set"@,
        fields::label_of(Lang::En, 6) == "Execution Mode"@,
        fields::label_of(Lang::En, 7) == "Random Order"@,
        fields::label_of(Lang::En, 8) == "Switch Weapon Interval (ms)"@,
        fields::label_of(Lang::En, 9) == "Switch Weapon Jitter (ms)"@,
        fields::label_of(Lang::En, 10) == "Shoot Interval (ms)"@,
        fields::label_of(Lang::En, 11) == "Shoot Jitter (ms)"@,
        fields::label_of(Lang::En, 12) == "Export Config"@,
        fields::label_of(Lang::En, 13) == "Load Config"@,
        fields::label_of(Lang::En, 14) == "Load Router"@,
        fields::label_of(Lang::En, 15) == "语言切换"@,
        fields::label_of(Lang::Zh, 0) == "武器槽#1绑定"@,
        fields::label_of(Lang::Zh, 1) == "武器槽#2绑定"@,
        fields::label_of(Lang::Zh, 2) == "武器槽#3绑定"@,
        fields::label_of(Lang::Zh, 3) == "执行热键绑定"@,
        fields::label_of(Lang::Zh, 4) == "速切配置热键"@,
        fields::label_of(Lang::Zh, 5) == "执行集合"@,
        fields::label_of(Lang::Zh, 6) == "执行方式"@,
        fields::label_of(Lang::Zh, 7) == "乱序执行"@,
        fields::label_of(Lang::Zh, 8) == "切换武器间隔(ms)"@,
        fields::label_of(Lang::Zh, 9) == "切换武器间隔偏移区间(ms)"@,
        fields::label_of(Lang::Zh, 10) == "射击间隔(ms)"@,
        fields::label_of(Lang::Zh, 11) == "射击间隔偏移区间(ms)"@,
        fields::label_of(Lang::Zh, 12) == "导出配置"@,
        fields::label_of(Lang::Zh, 13) == "读取配置"@,
        fields::label_of(Lang::Zh, 14) == "载入路由"@,
        fields::label_of(Lang::Zh, 15) == "Switch Language"@,
{
}

/// The first five fields are bindings, then come the order, two switches, four
/// numbers and four operations; of the numbers, the first and the third are
/// main intervals and the others offsets.
pub proof fn fields_have_their_kinds(f: usize)
    requires
        f < 16,
    ensures
        fields::kind_of(f) == FieldKind::Binding <==> f <= 4,
        fields::kind_of(f) == FieldKind::Order <==> f == 5,
        fields::kind_of(f) == FieldKind::Toggle <==> f == 6 || f == 7,
        fields::kind_of(f) == FieldKind::Number <==> 8 <= f <= 11,
        fields::kind_of(f) == FieldKind::Action <==> f >= 12,
        fields::is_interval(f) <==> f == 8 || f == 10,
        fields::is_offset(f) <==> f == 9 || f == 11,
{
}

} // verus!
