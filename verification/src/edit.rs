//! What the keys, the mouse and the messages of the background threads do to
//! the state.

use vstd::prelude::*;

use crate::config;
use crate::config::{ConfigView, ExecutionMode};
use crate::engine::EngineMsg;
use crate::fields;
use crate::keymap;
use crate::keymap::{Button, Key};
use crate::lang;
use crate::lang::Lang;
use crate::state::{App, AppView, DialogKind, Mode, ModeView, MsgKind, Task, TaskView};
use crate::text;

verus! {

/// A key of the terminal.
#[derive(Clone, Copy, PartialEq, Eq, Debug, Structural)]
pub enum KeyCode {
    Char(char),
    Backspace,
    Enter,
    Esc,
    Tab,
    BackTab,
    Left,
    Right,
    Up,
    Down,
    Other,
}

/// An event of the terminal.
#[derive(Clone, Copy, PartialEq, Eq, Debug, Structural)]
pub enum Event {
    /// A key was pressed, or it was released or repeated.
    Key { code: KeyCode, press: bool },
    /// A button of the mouse was pressed.
    MouseDown(Button),
    /// Anything else.
    Other,
}

// ---------------------------------------------------------------------------
// What the events do
// ---------------------------------------------------------------------------

pub open spec fn other_mode(mode: ExecutionMode) -> ExecutionMode {
    match mode {
        ExecutionMode::Hold => ExecutionMode::Toggle,
        ExecutionMode::Toggle => ExecutionMode::Hold,
    }
}

pub open spec fn order_hint(l: Lang) -> Seq<char> {
    lang::pick(
        l,
        "执行顺序无效: 从 A/B/C 选 1~3 个，每个最多一次 (如 A, AB, ABC)"@,
        "Invalid execution order: pick 1~3 from A/B/C, each at most once (e.g. A, AB, ABC)"@,
    )
}

/// The letter that a key adds to an execution order.
pub open spec fn order_letter(k: Key) -> Option<char> {
    match k {
        Key::KeyA => Some('A'),
        Key::KeyB => Some('B'),
        Key::KeyC => Some('C'),
        _ => None,
    }
}

impl AppView {
    /// The configuration was edited: it is saved.
    pub open spec fn edited(self, cfg: ConfigView) -> AppView {
        AppView { cfg, ..self }.at(TaskView::AutoSave)
    }

    /// A key or a button was chosen for a field. A binding that another field
    /// has is refused, and the capture goes on.
    pub open spec fn bound(self, field: usize, name: Seq<char>) -> AppView {
        match fields::holder(self.cfg, field, name, 0) {
            Some(i) => self.told(
                lang::message(
                    self.l(),
                    "绑定失败: {} 已被 {} 使用"@,
                    "Bind failed: {} already used by {}"@,
                    seq![name, fields::binding_label(self.l(), i)],
                ),
                MsgKind::Failure,
            ),
            None => self.in_mode(ModeView::Normal).told(
                lang::pick(self.l(), "按键已绑定"@, "Key bound"@),
                MsgKind::Success,
            ).edited(fields::with_binding(self.cfg, field, name)),
        }
    }

    /// An event while a binding is captured: only the mouse counts, since the
    /// keys come from the global listener.
    pub open spec fn on_capture(self, field: usize, ev: Event) -> AppView {
        match ev {
            Event::MouseDown(b) => self.bound(field, keymap::button_label(b)),
            _ => self,
        }
    }

    /// A number was entered. What is no number counts as zero, which is refused
    /// for a main interval.
    pub open spec fn number_entered(self, field: usize, buf: Seq<char>) -> AppView {
        let v: u64 = match text::number_u64(buf) {
            Some(n) => n,
            None => 0,
        };
        if fields::is_interval(field) && v == 0 {
            self.told(
                lang::pick(
                    self.l(),
                    "间隔不能为 0，请输入一个正整数（单位 ms）"@,
                    "Interval cannot be 0; enter a positive integer (ms)"@,
                ),
                MsgKind::Failure,
            )
        } else {
            self.in_mode(ModeView::Normal).told(
                lang::pick(self.l(), "数值已更新"@, "Value updated"@),
                MsgKind::Success,
            ).edited(fields::with_number(self.cfg, field, v))
        }
    }

    /// An event while a number is edited.
    pub open spec fn on_edit(self, field: usize, buf: Seq<char>, ev: Event) -> AppView {
        match ev {
            Event::Key { code: KeyCode::Char(c), press } => if text::is_digit(c) {
                self.in_mode(ModeView::Edit { field, buf: buf.push(c) })
            } else {
                self
            },
            Event::Key { code: KeyCode::Backspace, press } => self.in_mode(
                ModeView::Edit { field, buf: text::shorter(buf) },
            ),
            Event::Key { code: KeyCode::Enter, press } => self.number_entered(field, buf),
            Event::Key { code: KeyCode::Esc, press } => self.in_mode(ModeView::Normal).untold(),
            _ => self,
        }
    }

    /// A key while the execution order is edited. A letter that is there
    /// already, or for which there is no room, is refused.
    pub open spec fn on_order_key(self, field: usize, buf: Seq<char>, k: Key) -> AppView {
        if k == Key::Escape {
            self.in_mode(ModeView::Normal).untold()
        } else if k == Key::Backspace {
            self.in_mode(ModeView::OrderEdit { field, buf: text::shorter(buf) })
        } else if k == Key::Return {
            if config::valid_order(buf) {
                self.in_mode(ModeView::Normal).told(
                    lang::pick(self.l(), "执行顺序已更新"@, "Execution order updated"@),
                    MsgKind::Success,
                ).edited(ConfigView { execution_order: buf, ..self.cfg })
            } else {
                self.told(order_hint(self.l()), MsgKind::Failure)
            }
        } else {
            match order_letter(k) {
                Some(c) => if buf.len() < 3 && !buf.contains(c) {
                    self.in_mode(ModeView::OrderEdit { field, buf: buf.push(c) }).untold()
                } else {
                    self.told(order_hint(self.l()), MsgKind::Failure)
                },
                None => self,
            }
        }
    }

    /// The field with the focus was chosen: an action opens a dialog or
    /// switches the language, a switch is flipped, and any other field is
    /// edited.
    pub open spec fn confirmed(self) -> (AppView, Option<DialogKind>) {
        let s = self.untold();
        let f = self.focus;
        if f <= fields::F_ROUTER {
            (s.in_mode(ModeView::Capture { field: f }), None)
        } else if f == fields::F_ORDER {
            (s.in_mode(ModeView::OrderEdit { field: f, buf: self.cfg.execution_order }), None)
        } else if f == fields::F_MODE {
            let mode = other_mode(self.cfg.execution_mode);
            (
                s.told(
                    lang::message(
                        self.l(),
                        "执行方式已切换为{}"@,
                        "Execution mode switched to {}"@,
                        seq![fields::mode_label(self.l(), mode)],
                    ),
                    MsgKind::Success,
                ).edited(ConfigView { execution_mode: mode, ..self.cfg }),
                None,
            )
        } else if f == fields::F_RANDOM {
            let on = !self.cfg.random_execution;
            (
                s.told(
                    lang::message(
                        self.l(),
                        "乱序执行已{}"@,
                        "Random order {}"@,
                        seq![fields::switch_label(self.l(), on)],
                    ),
                    MsgKind::Success,
                ).edited(ConfigView { random_execution: on, ..self.cfg }),
                None,
            )
        } else if f <= fields::F_SHOOT_OFF {
            (
                s.in_mode(
                    ModeView::Edit {
                        field: f,
                        buf: text::decimal(fields::number_of(self.cfg, f) as nat),
                    },
                ),
                None,
            )
        } else if f == fields::A_EXPORT {
            (s, Some(DialogKind::Export))
        } else if f == fields::A_LOAD {
            (s, Some(DialogKind::Load))
        } else if f == fields::A_ROUTER {
            (s, Some(DialogKind::Router))
        } else {
            (s.language_switched(), None)
        }
    }

    /// The other language is switched to, and told in that language; the choice
    /// is saved with the session.
    pub open spec fn language_switched(self) -> AppView {
        let to = self.l().opposite();
        let text = match to {
            Lang::En => "Language switched to English"@,
            Lang::Zh => "语言已切换为中文"@,
        };
        AppView { lang: self.lang.with(to), ..self }.told(text, MsgKind::Success).at(
            TaskView::LangSession,
        )
    }

    pub open spec fn focused(self, focus: usize) -> AppView {
        AppView { focus, ..self.untold() }
    }

    /// An event while nothing is edited.
    pub open spec fn on_normal(self, ev: Event) -> (AppView, Option<DialogKind>) {
        match ev {
            Event::Key { code, press } => match code {
                KeyCode::Tab => (self.focused(fields::beside(self.focus, true)), None),
                KeyCode::Right => (self.focused(fields::beside(self.focus, true)), None),
                KeyCode::BackTab => (self.focused(fields::beside(self.focus, false)), None),
                KeyCode::Left => (self.focused(fields::beside(self.focus, false)), None),
                KeyCode::Up => (self.focused(fields::across(self.focus, false)), None),
                KeyCode::Down => (self.focused(fields::across(self.focus, true)), None),
                KeyCode::Enter => self.confirmed(),
                KeyCode::Esc => (AppView { should_quit: true, ..self }, None),
                _ => (self, None),
            },
            _ => (self, None),
        }
    }

    /// What an event of the terminal does, and the dialog that it asks for.
    /// Only a press of a key counts; the execution order is edited by the keys
    /// from the global listener.
    pub open spec fn on_event(self, ev: Event) -> (AppView, Option<DialogKind>) {
        if ev matches Event::Key { code, press } && !press {
            (self, None)
        } else {
            match self.mode {
                ModeView::Normal => self.on_normal(ev),
                ModeView::Capture { field } => (self.on_capture(field, ev), None),
                ModeView::Edit { field, buf } => (self.on_edit(field, buf, ev), None),
                ModeView::OrderEdit { field, buf } => (self, None),
            }
        }
    }

    /// A key from the global listener: it is the new binding, or it edits the
    /// execution order.
    pub open spec fn on_captured_key(self, k: Key) -> AppView {
        match self.mode {
            ModeView::Capture { field } => if k == Key::Escape {
                self.in_mode(ModeView::Normal).untold()
            } else {
                match keymap::key_label(k) {
                    Some(name) => self.bound(field, name),
                    None => self,
                }
            },
            ModeView::OrderEdit { field, buf } => self.on_order_key(field, buf, k),
            _ => self,
        }
    }

    /// What a message of a background thread does.
    pub open spec fn on_message(self, msg: EngineMsg) -> AppView {
        match msg {
            EngineMsg::Toggled(on) => if on {
                self.told(
                    lang::pick(
                        self.l(),
                        "执行已开始 (切到游戏窗口生效)"@,
                        "Execution started (switch to the game window to take effect)"@,
                    ),
                    MsgKind::Success,
                )
            } else {
                self.told(
                    lang::pick(self.l(), "执行已停止"@, "Execution stopped"@),
                    MsgKind::Info,
                )
            },
            EngineMsg::RouterNext => self.switching(),
            EngineMsg::ConfigReload => self.hot_reading(),
            EngineMsg::CaptureKey(k) => self.on_captured_key(k),
        }
    }

    /// The next usable entry of the router table is looked for.
    pub open spec fn switching(self) -> AppView {
        let n = self.router_files.len();
        if n == 0 {
            self.told(
                lang::pick(
                    self.l(),
                    "未载入路由 (zwtcfg_router.yaml)，请先在操作中载入"@,
                    "No router loaded (zwtcfg_router.yaml); load one from Operations first"@,
                ),
                MsgKind::Failure,
            )
        } else {
            self.at(
                TaskView::SwitchLoad {
                    index: ((self.router_index + 1) % n as int) as usize,
                    tried: 1,
                },
            )
        }
    }

    /// The active configuration file is looked at, where there is one.
    pub open spec fn hot_reading(self) -> AppView {
        if self.config_source is Some {
            self.at(TaskView::HotStat)
        } else {
            self
        }
    }
}

// ---------------------------------------------------------------------------
// Doing it
// ---------------------------------------------------------------------------

impl App {
    /// Takes the key or the button that was chosen for a field. A binding that
    /// another field has is refused; else it is set and saved.
    pub fn bind(&mut self, field: usize, name: String)
        ensures
            final(self)@ == old(self)@.bound(field, name@),
    {
        let l = self.language();
        match fields::find_binding_conflict(l, &self.cfg, field, name.as_str()) {
            Some(other) => {
                let text = lang::fmt2(
                    l,
                    "绑定失败: {} 已被 {} 使用",
                    "Bind failed: {} already used by {}",
                    name.as_str(),
                    other,
                );
                self.tell(text, MsgKind::Failure);
            },
            None => {
                fields::set_binding(&mut self.cfg, field, name);
                self.mode = Mode::Normal;
                self.tell(lang::tr(l, "按键已绑定", "Key bound").to_string(), MsgKind::Success);
                self.task = Task::AutoSave;
            },
        }
    }

    fn handle_capture(&mut self, field: usize, ev: Event)
        ensures
            final(self)@ == old(self)@.on_capture(field, ev),
    {
        match ev {
            Event::MouseDown(b) => {
                self.bind(field, keymap::mouse_button_name(b));
            },
            _ => {},
        }
    }

    fn enter_number(&mut self, field: usize, buf: String)
        ensures
            final(self)@ == old(self)@.number_entered(field, buf@),
    {
        let l = self.language();
        let v: u64 = match text::parse_number(buf.as_str()) {
            Some(n) => n,
            None => 0,
        };
        if fields::is_interval_field(field) && v == 0 {
            self.tell(
                lang::tr(
                    l,
                    "间隔不能为 0，请输入一个正整数（单位 ms）",
                    "Interval cannot be 0; enter a positive integer (ms)",
                ).to_string(),
                MsgKind::Failure,
            );
        } else {
            fields::set_numeric(&mut self.cfg, field, v);
            self.mode = Mode::Normal;
            self.tell(lang::tr(l, "数值已更新", "Value updated").to_string(), MsgKind::Success);
            self.task = Task::AutoSave;
        }
    }

    fn handle_edit(&mut self, field: usize, buf: String, ev: Event)
        requires
            old(self)@.mode == (ModeView::Edit { field, buf: buf@ }),
        ensures
            final(self)@ == old(self)@.on_edit(field, buf@, ev),
    {
        match ev {
            Event::Key { code, press } => match code {
                KeyCode::Char(c) => {
                    if '0' <= c && c <= '9' {
                        let mut longer = buf;
                        longer.push(c);
                        self.mode = Mode::Edit { field, buf: longer };
                    }
                },
                KeyCode::Backspace => {
                    self.mode = Mode::Edit { field, buf: text::without_last(buf.as_str()) };
                },
                KeyCode::Enter => {
                    self.enter_number(field, buf);
                },
                KeyCode::Esc => {
                    self.mode = Mode::Normal;
                    self.status = None;
                },
                _ => {},
            },
            _ => {},
        }
    }

    /// Takes a key while the execution order is edited: it accepts the three
    /// letters, none of them twice; escape cancels, and return confirms.
    pub fn order_edit_key(&mut self, field: usize, k: Key)
        ensures
            final(self)@ == match old(self)@.mode {
                ModeView::OrderEdit { field: _, buf } => old(self)@.on_order_key(field, buf, k),
                _ => old(self)@,
            },
    {
        let l = self.language();
        let buf = match &self.mode {
            Mode::OrderEdit { field: _, buf } => buf.clone(),
            _ => {
                return ;
            },
        };
        if k == Key::Escape {
            self.mode = Mode::Normal;
            self.status = None;
        } else if k == Key::Backspace {
            self.mode = Mode::OrderEdit { field, buf: text::without_last(buf.as_str()) };
        } else if k == Key::Return {
            if config::is_valid_order(buf.as_str()) {
                self.cfg.execution_order = buf;
                self.mode = Mode::Normal;
                self.tell(
                    lang::tr(l, "执行顺序已更新", "Execution order updated").to_string(),
                    MsgKind::Success,
                );
                self.task = Task::AutoSave;
            } else {
                self.refuse_order(l);
            }
        } else {
            let letter = match k {
                Key::KeyA => 'A',
                Key::KeyB => 'B',
                Key::KeyC => 'C',
                _ => {
                    return ;
                },
            };
            if text::chars_of(buf.as_str()).len() < 3 && !text::holds_char(buf.as_str(), letter) {
                let mut longer = buf;
                longer.push(letter);
                self.mode = Mode::OrderEdit { field, buf: longer };
                self.status = None;
            } else {
                self.refuse_order(l);
            }
        }
    }

    fn refuse_order(&mut self, l: Lang)
        ensures
            final(self)@ == old(self)@.told(order_hint(l), MsgKind::Failure),
    {
        self.tell(
            lang::tr(
                l,
                "执行顺序无效: 从 A/B/C 选 1~3 个，每个最多一次 (如 A, AB, ABC)",
                "Invalid execution order: pick 1~3 from A/B/C, each at most once (e.g. A, AB, ABC)",
            ).to_string(),
            MsgKind::Failure,
        );
    }

    fn switch_language(&mut self)
        ensures
            final(self)@ == old(self)@.language_switched(),
    {
        let to = Lang::toggle(&mut self.lang);
        let text = match to {
            Lang::En => "Language switched to English",
            Lang::Zh => "语言已切换为中文",
        };
        self.tell(text.to_string(), MsgKind::Success);
        self.task = Task::LangSession;
    }

    fn confirm(&mut self) -> (r: Option<DialogKind>)
        ensures
            (final(self)@, r) == old(self)@.confirmed(),
    {
        let l = self.language();
        self.status = None;
        let f: usize = self.focus;
        if f <= fields::F_ROUTER {
            self.mode = Mode::Capture { field: f };
            None
        } else if f == fields::F_ORDER {
            self.mode = Mode::OrderEdit { field: f, buf: self.cfg.execution_order.clone() };
            None
        } else if f == fields::F_MODE {
            let mode = match self.cfg.execution_mode {
                ExecutionMode::Hold => ExecutionMode::Toggle,
                ExecutionMode::Toggle => ExecutionMode::Hold,
            };
            self.cfg.execution_mode = mode;
            let text = lang::fmt1(
                l,
                "执行方式已切换为{}",
                "Execution mode switched to {}",
                fields::mode_name(l, mode),
            );
            self.tell(text, MsgKind::Success);
            self.task = Task::AutoSave;
            None
        } else if f == fields::F_RANDOM {
            let on = !self.cfg.random_execution;
            self.cfg.random_execution = on;
            let text = lang::fmt1(
                l,
                "乱序执行已{}",
                "Random order {}",
                fields::switch_name(l, on),
            );
            self.tell(text, MsgKind::Success);
            self.task = Task::AutoSave;
            None
        } else if f <= fields::F_SHOOT_OFF {
            let v: u64 = fields::numeric_value(&self.cfg, f);
            self.mode = Mode::Edit { field: f, buf: text::decimal_of(v) };
            None
        } else if f == fields::A_EXPORT {
            Some(DialogKind::Export)
        } else if f == fields::A_LOAD {
            Some(DialogKind::Load)
        } else if f == fields::A_ROUTER {
            Some(DialogKind::Router)
        } else {
            self.switch_language();
            None
        }
    }

    fn move_horizontal(&mut self, forward: bool)
        requires
            old(self)@.focus < fields::TOTAL_FIELDS,
        ensures
            final(self)@ == old(self)@.focused(fields::beside(old(self)@.focus, forward)),
    {
        self.status = None;
        self.focus = fields::step_beside(self.focus, forward);
    }

    fn move_vertical(&mut self, down: bool)
        requires
            old(self)@.focus < fields::TOTAL_FIELDS,
        ensures
            final(self)@ == old(self)@.focused(fields::across(old(self)@.focus, down)),
    {
        self.status = None;
        self.focus = fields::step_across(self.focus, down);
    }

    fn handle_normal(&mut self, ev: Event) -> (r: Option<DialogKind>)
        requires
            old(self)@.focus < fields::TOTAL_FIELDS,
        ensures
            (final(self)@, r) == old(self)@.on_normal(ev),
    {
        match ev {
            Event::Key { code, press } => match code {
                KeyCode::Tab => self.move_horizontal(true),
                KeyCode::Right => self.move_horizontal(true),
                KeyCode::BackTab => self.move_horizontal(false),
                KeyCode::Left => self.move_horizontal(false),
                KeyCode::Up => self.move_vertical(false),
                KeyCode::Down => self.move_vertical(true),
                KeyCode::Enter => {
                    return self.confirm();
                },
                KeyCode::Esc => {
                    self.should_quit = true;
                },
                _ => {},
            },
            _ => {},
        }
        None
    }

    /// Takes an event of the terminal. Where the result is a dialog, it is to
    /// be opened.
    pub fn handle_event(&mut self, ev: Event) -> (r: Option<DialogKind>)
        requires
            old(self)@.wf(),
            old(self)@.task is Idle,
        ensures
            (final(self)@, r) == old(self)@.on_event(ev),
            final(self)@.wf(),
    {
        proof {
            events_keep_the_invariant(old(self)@, ev);
        }
        if let Event::Key { code, press } = ev {
            if !press {
                return None;
            }
        }
        match &self.mode {
            Mode::Normal => self.handle_normal(ev),
            Mode::Capture { field } => {
                let field: usize = *field;
                self.handle_capture(field, ev);
                None
            },
            Mode::Edit { field, buf } => {
                let field: usize = *field;
                let buf = buf.clone();
                self.handle_edit(field, buf, ev);
                None
            },
            Mode::OrderEdit { field, buf } => None,
        }
    }

    fn capture_key(&mut self, k: Key)
        ensures
            final(self)@ == old(self)@.on_captured_key(k),
    {
        match &self.mode {
            Mode::Capture { field } => {
                let field: usize = *field;
                if k == Key::Escape {
                    self.mode = Mode::Normal;
                    self.status = None;
                } else {
                    match keymap::rdev_key_name(k) {
                        Some(name) => self.bind(field, name),
                        None => {},
                    }
                }
            },
            Mode::OrderEdit { field, buf } => {
                let field: usize = *field;
                self.order_edit_key(field, k);
            },
            _ => {},
        }
    }

    fn router_next(&mut self)
        requires
            old(self)@.router_index < usize::MAX,
        ensures
            final(self)@ == old(self)@.switching(),
    {
        let n: usize = self.router_files.len();
        if n == 0 {
            let l = self.language();
            self.tell(
                lang::tr(
                    l,
                    "未载入路由 (zwtcfg_router.yaml)，请先在操作中载入",
                    "No router loaded (zwtcfg_router.yaml); load one from Operations first",
                ).to_string(),
                MsgKind::Failure,
            );
        } else {
            self.task = Task::SwitchLoad { index: (self.router_index + 1) % n, tried: 1 };
        }
    }

    fn hot_read(&mut self)
        ensures
            final(self)@ == old(self)@.hot_reading(),
    {
        if self.config_source.is_some() {
            self.task = Task::HotStat;
        }
    }

    /// Takes a message of a background thread.
    pub fn handle_message(&mut self, msg: EngineMsg)
        requires
            old(self)@.wf(),
            old(self)@.task is Idle,
        ensures
            final(self)@ == old(self)@.on_message(msg),
            final(self)@.wf(),
    {
        proof {
            messages_keep_the_invariant(old(self)@, msg);
        }
        let l = self.language();
        match msg {
            EngineMsg::Toggled(on) => {
                if on {
                    self.tell(
                        lang::tr(
                            l,
                            "执行已开始 (切到游戏窗口生效)",
                            "Execution started (switch to the game window to take effect)",
                        ).to_string(),
                        MsgKind::Success,
                    );
                } else {
                    self.tell(
                        lang::tr(l, "执行已停止", "Execution stopped").to_string(),
                        MsgKind::Info,
                    );
                }
            },
            EngineMsg::RouterNext => self.router_next(),
            EngineMsg::ConfigReload => self.hot_read(),
            EngineMsg::CaptureKey(k) => self.capture_key(k),
        }
    }
}

// ---------------------------------------------------------------------------
// Laws
// ---------------------------------------------------------------------------

proof fn lemma_bound(s: AppView, field: usize, name: Seq<char>)
    requires
        s.wf(),
        s.task is Idle,
        field <= fields::F_ROUTER,
    ensures
        s.bound(field, name).wf(),
{
}

proof fn lemma_shorter_buffer(buf: Seq<char>)
    requires
        crate::state::order_buffer(buf),
    ensures
        crate::state::order_buffer(text::shorter(buf)),
{
    let b = text::shorter(buf);
    assert forall|i: int| 0 <= i < b.len() implies config::is_slot_letter(#[trigger] b[i]) by {
        assert(b[i] == buf[i]);
    }
}

proof fn lemma_longer_buffer(buf: Seq<char>, c: char)
    requires
        crate::state::order_buffer(buf),
        buf.len() < 3,
        !buf.contains(c),
        config::is_slot_letter(c),
    ensures
        crate::state::order_buffer(buf.push(c)),
{
    let b = buf.push(c);
    assert forall|i: int| 0 <= i < b.len() implies config::is_slot_letter(#[trigger] b[i]) by {
        if i < buf.len() {
            assert(b[i] == buf[i]);
        }
    }
    assert forall|i: int, j: int| 0 <= i < b.len() && 0 <= j < b.len() && i != j implies b[i]
        != b[j] by {
        if i < buf.len() && j < buf.len() {
            assert(buf[i] != buf[j]);
        } else if i < buf.len() {
            assert(buf.contains(buf[i]));
        } else {
            assert(buf.contains(buf[j]));
        }
    }
}

proof fn lemma_order_key(s: AppView, field: usize, buf: Seq<char>, k: Key)
    requires
        s.wf(),
        s.task is Idle,
        s.mode == (ModeView::OrderEdit { field, buf }),
    ensures
        s.on_order_key(field, buf, k).wf(),
{
    lemma_shorter_buffer(buf);
    if let Some(c) = order_letter(k) {
        if buf.len() < 3 && !buf.contains(c) {
            lemma_longer_buffer(buf, c);
        }
    }
}

/// Whatever key is pressed and whatever is entered: the configuration stays
/// valid, and the rest of the invariant is kept.
pub proof fn events_keep_the_invariant(s: AppView, ev: Event)
    requires
        s.wf(),
        s.task is Idle,
    ensures
        s.on_event(ev).0.wf(),
{
    match s.mode {
        ModeView::Capture { field } => {
            if let Event::MouseDown(b) = ev {
                lemma_bound(s, field, keymap::button_label(b));
            }
        },
        ModeView::Edit { field, buf } => {
            let b = text::shorter(buf);
            assert forall|i: int| 0 <= i < b.len() implies text::is_digit(#[trigger] b[i]) by {
                assert(b[i] == buf[i]);
            }
        },
        ModeView::OrderEdit { field, buf } => {},
        ModeView::Normal => {
            text::lemma_decimal(fields::number_of(s.cfg, s.focus) as nat);
        },
    }
}

/// Whatever the background threads tell: the configuration stays valid, and
/// the rest of the invariant is kept.
pub proof fn messages_keep_the_invariant(s: AppView, msg: EngineMsg)
    requires
        s.wf(),
        s.task is Idle,
    ensures
        s.on_message(msg).wf(),
{
    if let EngineMsg::CaptureKey(k) = msg {
        match s.mode {
            ModeView::Capture { field } => {
                if let Some(name) = keymap::key_label(k) {
                    lemma_bound(s, field, name);
                }
            },
            ModeView::OrderEdit { field, buf } => {
                lemma_order_key(s, field, buf, k);
            },
            _ => {},
        }
    }
}

/// Every change of the configuration is saved: an event or a message that
/// changes it starts a save.
pub proof fn edits_are_saved(s: AppView, ev: Event, msg: EngineMsg)
    requires
        s.task is Idle,
    ensures
        s.on_event(ev).0.cfg != s.cfg ==> s.on_event(ev).0.task is AutoSave,
        s.on_message(msg).cfg != s.cfg ==> s.on_message(msg).task is AutoSave,
{
}

/// Escape leaves an edit without a trace: the configuration is not changed,
/// nothing is saved, and the keys move the focus again.
pub proof fn escape_cancels(s: AppView)
    requires
        s.task is Idle,
    ensures
        ({
            let key = s.on_event(Event::Key { code: KeyCode::Esc, press: true }).0;
            let caught = s.on_message(EngineMsg::CaptureKey(Key::Escape));
            &&& s.mode is Edit ==> key.mode is Normal && key.cfg == s.cfg && key.task is Idle
            &&& s.mode is Capture || s.mode is OrderEdit ==> caught.mode is Normal && caught.cfg
                == s.cfg && caught.task is Idle
        }),
{
}

/// No two fields have the same binding.
pub open spec fn distinct_bindings(c: ConfigView) -> bool {
    forall|i: usize, j: usize|
        i < j <= fields::F_ROUTER ==> #[trigger] fields::binding_of(c, i)
            != #[trigger] fields::binding_of(c, j)
}

proof fn lemma_no_holder(c: ConfigView, field: usize, name: Seq<char>, i: usize, j: usize)
    requires
        fields::holder(c, field, name, i) is None,
        i <= j <= fields::F_ROUTER,
        j != field,
    ensures
        fields::binding_of(c, j) != name,
    decreases j - i,
{
    if i < j {
        lemma_no_holder(c, field, name, (i + 1) as usize, j);
    }
}

proof fn lemma_holder(c: ConfigView, field: usize, name: Seq<char>, i: usize)
    requires
        i <= fields::F_ROUTER + 1,
    ensures
        fields::holder(c, field, name, i) matches Some(j) ==> i <= j <= fields::F_ROUTER && j
            != field && fields::binding_of(c, j) == name,
    decreases fields::F_ROUTER + 1 - i,
{
    if i <= fields::F_ROUTER {
        lemma_holder(c, field, name, (i + 1) as usize);
    }
}

/// Another field has the binding.
pub open spec fn is_taken(c: ConfigView, field: usize, name: Seq<char>) -> bool {
    exists|j: usize|
        j <= fields::F_ROUTER && j != field && #[trigger] fields::binding_of(c, j) == name
}

/// A binding that another field has is refused: nothing changes, nothing is
/// saved, and the capture goes on; that is told. Any other binding is set: it is
/// the only thing in the configuration that changes, the capture is over, and
/// the configuration is saved. Either way distinct bindings stay so.
pub proof fn a_binding_is_refused_or_set(s: AppView, field: usize, name: Seq<char>)
    requires
        field <= fields::F_ROUTER,
    ensures
        ({
            let after = s.bound(field, name);
            if is_taken(s.cfg, field, name) {
                &&& after == (AppView { status: after.status, ..s })
                &&& after.status matches Some(m)
                &&& m.kind == MsgKind::Failure
            } else {
                &&& after.cfg == fields::with_binding(s.cfg, field, name)
                &&& fields::binding_of(after.cfg, field) == name
                &&& forall|j: usize|
                    j <= fields::F_ROUTER && j != field ==> #[trigger] fields::binding_of(
                        after.cfg,
                        j,
                    ) == fields::binding_of(s.cfg, j)
                &&& after.mode is Normal
                &&& after.task is AutoSave
            }
        }),
        distinct_bindings(s.cfg) ==> distinct_bindings(s.bound(field, name).cfg),
{
    lemma_holder(s.cfg, field, name, 0);
    if let Some(j) = fields::holder(s.cfg, field, name, 0) {
        assert(fields::binding_of(s.cfg, j) == name);
    } else {
        assert forall|j: usize| j <= fields::F_ROUTER && j != field implies (
        #[trigger] fields::binding_of(s.cfg, j)) != name by {
            lemma_no_holder(s.cfg, field, name, 0, j);
        }
        assert forall|j: usize| j <= fields::F_ROUTER && j != field implies (
        #[trigger] fields::binding_of(s.bound(field, name).cfg, j)) == fields::binding_of(
            s.cfg,
            j,
        ) by {
            fields::fields_do_not_overlap(s.cfg, field, j, name, 0);
        }
        fields::fields_do_not_overlap(s.cfg, field, field, name, 0);
    }
    if distinct_bindings(s.cfg) {
        bindings_stay_distinct(s, field, name);
    }
}

/// While the execution order is edited, what is entered always consists of some
/// of the three letters, none of them twice. Only a confirmed order gets into the
/// configuration, which is then saved; an empty one is refused, and escape
/// changes nothing.
pub proof fn the_order_editor_keeps_its_form(s: AppView, field: usize, buf: Seq<char>, k: Key)
    requires
        s.mode == (ModeView::OrderEdit { field, buf }),
        crate::state::order_buffer(buf),
    ensures
        s.on_message(EngineMsg::CaptureKey(k)) == s.on_order_key(field, buf, k),
        ({
            let after = s.on_order_key(field, buf, k);
            &&& after.mode is Normal || (after.mode matches ModeView::OrderEdit {
                field: f,
                buf: b,
            } && f == field && crate::state::order_buffer(b))
            &&& k == Key::Return && config::valid_order(buf) ==> after.cfg == (ConfigView {
                execution_order: buf,
                ..s.cfg
            }) && after.mode is Normal && after.task is AutoSave
            &&& !(k == Key::Return && config::valid_order(buf)) ==> after.cfg == s.cfg
                && after.task == s.task
            &&& k == Key::Return && buf.len() == 0 ==> after.mode == s.mode && (
            after.status matches Some(m) && m.kind == MsgKind::Failure)
            &&& k == Key::Escape ==> after.mode is Normal
        }),
        buf.len() > 0 ==> config::valid_order(buf),
{
    lemma_shorter_buffer(buf);
    if let Some(c) = order_letter(k) {
        if buf.len() < 3 && !buf.contains(c) {
            lemma_longer_buffer(buf, c);
        }
    }
}

/// A key or a button is never bound twice: where the bindings are distinct,
/// they stay so, whatever is chosen for a field.
pub proof fn bindings_stay_distinct(s: AppView, field: usize, name: Seq<char>)
    requires
        field <= fields::F_ROUTER,
        distinct_bindings(s.cfg),
    ensures
        distinct_bindings(s.bound(field, name).cfg),
{
    if fields::holder(s.cfg, field, name, 0) is None {
        let c = fields::with_binding(s.cfg, field, name);
        assert forall|i: usize, j: usize| i < j <= fields::F_ROUTER implies (
        #[trigger] fields::binding_of(c, i)) != (#[trigger] fields::binding_of(c, j)) by {
            fields::fields_do_not_overlap(s.cfg, field, i, name, 0);
            fields::fields_do_not_overlap(s.cfg, field, j, name, 0);
            if i == field {
                lemma_no_holder(s.cfg, field, name, 0, j);
            } else if j == field {
                lemma_no_holder(s.cfg, field, name, 0, i);
            } else {
                assert(fields::binding_of(s.cfg, i) != fields::binding_of(s.cfg, j));
            }
        }
    }
}

} // verus!
