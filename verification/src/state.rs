//! The state of the interactive program.
//!
//! Everything that the program knows is held here as plain values. The files,
//! dialogs and threads are outside: an operation that needs one of them is a
//! task, which asks for one thing after the other and goes on with the replies.

use vstd::prelude::*;

use crate::config;
use crate::config::{Config, ConfigView};
use crate::fields;
use crate::lang::{Lang, LangState};
use crate::router;
use crate::router::{ItemView, RouterItem};
use crate::session::{SessionState, SessionView};
use crate::text;
use crate::watcher::Mtime;

verus! {

// ---------------------------------------------------------------------------
// Parts of the state
// ---------------------------------------------------------------------------

/// What the keys do at the moment.
#[derive(Debug)]
pub enum Mode {
    /// They move the focus.
    Normal,
    /// The next key or button becomes the binding of a field.
    Capture { field: usize },
    /// They edit a number.
    Edit { field: usize, buf: String },
    /// They edit the execution order.
    OrderEdit { field: usize, buf: String },
}

/// What a mode holds.
pub enum ModeView {
    Normal,
    Capture { field: usize },
    Edit { field: usize, buf: Seq<char> },
    OrderEdit { field: usize, buf: Seq<char> },
}

impl View for Mode {
    type V = ModeView;

    open spec fn view(&self) -> ModeView {
        match *self {
            Mode::Normal => ModeView::Normal,
            Mode::Capture { field } => ModeView::Capture { field },
            Mode::Edit { field, buf } => ModeView::Edit { field, buf: buf@ },
            Mode::OrderEdit { field, buf } => ModeView::OrderEdit { field, buf: buf@ },
        }
    }
}

/// The tone of a message.
#[derive(Clone, Copy, PartialEq, Eq, Debug, Structural)]
pub enum MsgKind {
    Info,
    Success,
    Failure,
}

/// A message to the user.
#[derive(Debug)]
pub struct StatusMsg {
    pub text: String,
    pub kind: MsgKind,
}

/// What a message holds.
pub struct StatusView {
    pub text: Seq<char>,
    pub kind: MsgKind,
}

pub open spec fn status_view(s: Option<StatusMsg>) -> Option<StatusView> {
    match s {
        Some(m) => Some(StatusView { text: m.text@, kind: m.kind }),
        None => None,
    }
}

/// An entry of the router table: the configuration file, and whether it can be
/// used; if not, why.
#[derive(Debug)]
pub struct RouterEntry {
    pub path: String,
    pub valid: bool,
    pub error: String,
}

/// What an entry holds.
pub struct EntryView {
    pub path: Seq<char>,
    pub valid: bool,
    pub error: Seq<char>,
}

impl View for RouterEntry {
    type V = EntryView;

    open spec fn view(&self) -> EntryView {
        EntryView { path: self.path@, valid: self.valid, error: self.error@ }
    }
}

pub open spec fn entry_views(s: Seq<RouterEntry>) -> Seq<EntryView> {
    s.map_values(|e: RouterEntry| e@)
}

/// A dialog in which a file is chosen.
#[derive(Clone, Copy, PartialEq, Eq, Debug, Structural)]
pub enum DialogKind {
    Export,
    Load,
    Router,
}

// ---------------------------------------------------------------------------
// Tasks
// ---------------------------------------------------------------------------

/// Who wants a router table to be loaded.
#[derive(Debug)]
pub enum Caller {
    /// The user, in a dialog.
    Dialog,
    /// The start of the program, from the last session.
    Restore { state: SessionState },
}

pub enum CallerView {
    Dialog,
    Restore { state: SessionView },
}

impl View for Caller {
    type V = CallerView;

    open spec fn view(&self) -> CallerView {
        match *self {
            Caller::Dialog => CallerView::Dialog,
            Caller::Restore { state } => CallerView::Restore { state: state@ },
        }
    }
}

/// What a configuration is applied for.
#[derive(Debug)]
pub enum Goal {
    /// The user chose it in a dialog.
    LoadDialog,
    /// It is the first usable entry of the table that was just loaded.
    FirstOfTable { table: String, caller: Caller },
    /// It was the last one of the last session.
    LastConfig { state: SessionState },
    /// It takes the place of the last one, which cannot be used.
    InsteadOfLast { state: SessionState, index: usize },
}

pub enum GoalView {
    LoadDialog,
    FirstOfTable { table: Seq<char>, caller: CallerView },
    LastConfig { state: SessionView },
    InsteadOfLast { state: SessionView, index: usize },
}

impl View for Goal {
    type V = GoalView;

    open spec fn view(&self) -> GoalView {
        match *self {
            Goal::LoadDialog => GoalView::LoadDialog,
            Goal::FirstOfTable { table, caller } => GoalView::FirstOfTable {
                table: table@,
                caller: caller@,
            },
            Goal::LastConfig { state } => GoalView::LastConfig { state: state@ },
            Goal::InsteadOfLast { state, index } => GoalView::InsteadOfLast {
                state: state@,
                index,
            },
        }
    }
}

/// An operation that waits for a reply from outside.
#[derive(Debug)]
pub enum Task {
    /// There is none.
    Idle,
    /// A file is chosen in a dialog.
    Pick { kind: DialogKind },
    /// The configuration is exported.
    Export { path: String },
    /// A configuration is read in order to be applied.
    ApplyLoad { path: String, goal: Goal },
    /// The modification time of the applied configuration is read.
    ApplyStat { path: String, goal: Goal },
    /// The session is saved after a configuration was applied.
    ApplySession { path: String, goal: Goal },
    /// A router table is read.
    TableRead { table: String, caller: Caller },
    /// The entries of a table are checked one after the other.
    TableCheck {
        table: String,
        content: String,
        items: Vec<RouterItem>,
        entries: Vec<RouterEntry>,
        invalid: Vec<(usize, String)>,
        caller: Caller,
    },
    /// A table is written with the markers of its unusable entries.
    TableWrite { table: String, content: String, entries: Vec<RouterEntry>, caller: Caller },
    /// The session is saved after a table was loaded.
    TableSession { table: String, caller: Caller },
    /// It is found out whether the last table is still there.
    FindTable { table: String, state: SessionState },
    /// It is found out whether the last configuration is still there.
    FindConfig { path: String, state: SessionState },
    /// It is found out whether there is a default configuration file.
    DefaultFind { session: Option<SessionState> },
    /// The default configuration file is read.
    DefaultLoad { session: Option<SessionState> },
    /// The default configuration file is written.
    DefaultSave { session: Option<SessionState> },
    /// The session is saved after it was restored.
    RestoreSession,
    /// The modification time of the first configuration is read.
    StartStat,
    /// An edited configuration is saved.
    AutoSave,
    /// The modification time of the saved configuration is read.
    AutoStat,
    /// An entry of the table is read in order to be switched to.
    SwitchLoad { index: usize, tried: usize },
    /// The modification time of the entry that was switched to is read.
    SwitchStat { index: usize },
    /// The session is saved after a switch.
    SwitchSession { index: usize },
    /// The modification time of the active configuration is read.
    HotStat,
    /// The active configuration is read again.
    HotLoad { mtime: Mtime },
    /// The session is saved after the language was switched.
    LangSession,
}

/// What a task holds.
pub enum TaskView {
    Idle,
    Pick { kind: DialogKind },
    Export { path: Seq<char> },
    ApplyLoad { path: Seq<char>, goal: GoalView },
    ApplyStat { path: Seq<char>, goal: GoalView },
    ApplySession { path: Seq<char>, goal: GoalView },
    TableRead { table: Seq<char>, caller: CallerView },
    TableCheck {
        table: Seq<char>,
        content: Seq<char>,
        items: Seq<ItemView>,
        entries: Seq<EntryView>,
        invalid: Seq<(nat, Seq<char>)>,
        caller: CallerView,
    },
    TableWrite {
        table: Seq<char>,
        content: Seq<char>,
        entries: Seq<EntryView>,
        caller: CallerView,
    },
    TableSession { table: Seq<char>, caller: CallerView },
    FindTable { table: Seq<char>, state: SessionView },
    FindConfig { path: Seq<char>, state: SessionView },
    DefaultFind { session: Option<SessionView> },
    DefaultLoad { session: Option<SessionView> },
    DefaultSave { session: Option<SessionView> },
    RestoreSession,
    StartStat,
    AutoSave,
    AutoStat,
    SwitchLoad { index: usize, tried: usize },
    SwitchStat { index: usize },
    SwitchSession { index: usize },
    HotStat,
    HotLoad { mtime: Mtime },
    LangSession,
}

pub open spec fn session_view(s: Option<SessionState>) -> Option<SessionView> {
    match s {
        Some(x) => Some(x@),
        None => None,
    }
}

impl View for Task {
    type V = TaskView;

    open spec fn view(&self) -> TaskView {
        match *self {
            Task::Idle => TaskView::Idle,
            Task::Pick { kind } => TaskView::Pick { kind },
            Task::Export { path } => TaskView::Export { path: path@ },
            Task::ApplyLoad { path, goal } => TaskView::ApplyLoad { path: path@, goal: goal@ },
            Task::ApplyStat { path, goal } => TaskView::ApplyStat { path: path@, goal: goal@ },
            Task::ApplySession { path, goal } => TaskView::ApplySession {
                path: path@,
                goal: goal@,
            },
            Task::TableRead { table, caller } => TaskView::TableRead {
                table: table@,
                caller: caller@,
            },
            Task::TableCheck { table, content, items, entries, invalid, caller } =>
                TaskView::TableCheck {
                table: table@,
                content: content@,
                items: router::item_views(items@),
                entries: entry_views(entries@),
                invalid: router::marker_views(invalid@),
                caller: caller@,
            },
            Task::TableWrite { table, content, entries, caller } => TaskView::TableWrite {
                table: table@,
                content: content@,
                entries: entry_views(entries@),
                caller: caller@,
            },
            Task::TableSession { table, caller } => TaskView::TableSession {
                table: table@,
                caller: caller@,
            },
            Task::FindTable { table, state } => TaskView::FindTable {
                table: table@,
                state: state@,
            },
            Task::FindConfig { path, state } => TaskView::FindConfig { path: path@, state: state@ },
            Task::DefaultFind { session } => TaskView::DefaultFind { session: session_view(session) },
            Task::DefaultLoad { session } => TaskView::DefaultLoad { session: session_view(session) },
            Task::DefaultSave { session } => TaskView::DefaultSave { session: session_view(session) },
            Task::RestoreSession => TaskView::RestoreSession,
            Task::StartStat => TaskView::StartStat,
            Task::AutoSave => TaskView::AutoSave,
            Task::AutoStat => TaskView::AutoStat,
            Task::SwitchLoad { index, tried } => TaskView::SwitchLoad { index, tried },
            Task::SwitchStat { index } => TaskView::SwitchStat { index },
            Task::SwitchSession { index } => TaskView::SwitchSession { index },
            Task::HotStat => TaskView::HotStat,
            Task::HotLoad { mtime } => TaskView::HotLoad { mtime },
            Task::LangSession => TaskView::LangSession,
        }
    }
}

// ---------------------------------------------------------------------------
// The whole state
// ---------------------------------------------------------------------------

/// The state of the program.
#[derive(Debug)]
pub struct App {
    /// The configuration.
    pub cfg: Config,
    /// The copy of it that the engine reads.
    pub shared: Config,
    /// The language.
    pub lang: LangState,
    /// The file from which the configuration came: edits are saved to it, and
    /// it is watched for changes from outside.
    pub config_source: Option<String>,
    /// The modification time of that file when it was last read or written.
    pub config_mtime: Option<Mtime>,
    /// The file that the watcher is to look at.
    pub watched: Option<String>,
    /// The router table that is loaded.
    pub router_path: Option<String>,
    /// The entries of that table.
    pub router_files: Vec<RouterEntry>,
    /// The position in that table.
    pub router_index: usize,
    /// The field that has the focus.
    pub focus: usize,
    pub mode: Mode,
    pub status: Option<StatusMsg>,
    pub should_quit: bool,
    /// What waits for a reply from outside.
    pub task: Task,
}

/// What the state holds.
pub struct AppView {
    pub cfg: ConfigView,
    pub shared: ConfigView,
    pub lang: LangState,
    pub config_source: Option<Seq<char>>,
    pub config_mtime: Option<Mtime>,
    pub watched: Option<Seq<char>>,
    pub router_path: Option<Seq<char>>,
    pub router_files: Seq<EntryView>,
    pub router_index: usize,
    pub focus: usize,
    pub mode: ModeView,
    pub status: Option<StatusView>,
    pub should_quit: bool,
    pub task: TaskView,
}

impl View for App {
    type V = AppView;

    open spec fn view(&self) -> AppView {
        AppView {
            cfg: self.cfg@,
            shared: self.shared@,
            lang: self.lang,
            config_source: text::opt_view(self.config_source),
            config_mtime: self.config_mtime,
            watched: text::opt_view(self.watched),
            router_path: text::opt_view(self.router_path),
            router_files: entry_views(self.router_files@),
            router_index: self.router_index,
            focus: self.focus,
            mode: self.mode@,
            status: status_view(self.status),
            should_quit: self.should_quit,
            task: self.task@,
        }
    }
}

impl AppView {
    /// The language in force.
    pub open spec fn l(self) -> Lang {
        self.lang.current()
    }

    /// The state with another message.
    pub open spec fn told(self, text: Seq<char>, kind: MsgKind) -> AppView {
        AppView { status: Some(StatusView { text, kind }), ..self }
    }

    /// The state with no message.
    pub open spec fn untold(self) -> AppView {
        AppView { status: None, ..self }
    }

    /// The state with another task.
    pub open spec fn at(self, task: TaskView) -> AppView {
        AppView { task, ..self }
    }

    /// The state with no task.
    pub open spec fn idle(self) -> AppView {
        self.at(TaskView::Idle)
    }

    /// The state in another mode.
    pub open spec fn in_mode(self, mode: ModeView) -> AppView {
        AppView { mode, ..self }
    }
}

/// The program as it starts, before the last session is restored.
pub open spec fn fresh(lang: LangState) -> AppView {
    AppView {
        cfg: config::default_config(),
        shared: config::default_config(),
        lang,
        config_source: None,
        config_mtime: None,
        watched: None,
        router_path: None,
        router_files: seq![],
        router_index: 0,
        focus: fields::F_WEAPON1,
        mode: ModeView::Normal,
        status: None,
        should_quit: false,
        task: TaskView::Idle,
    }
}

impl App {
    /// The program as it starts.
    pub fn new(lang: LangState) -> (r: Self)
        ensures
            r@ == fresh(lang),
            r@.wf(),
    {
        proof {
            fresh_is_well_formed(lang);
        }
        let r = App {
            cfg: Config::default(),
            shared: Config::default(),
            lang,
            config_source: None,
            config_mtime: None,
            watched: None,
            router_path: None,
            router_files: Vec::new(),
            router_index: 0,
            focus: fields::F_WEAPON1,
            mode: Mode::Normal,
            status: None,
            should_quit: false,
            task: Task::Idle,
        };
        proof {
            assert(r@.router_files =~= Seq::<EntryView>::empty());
        }
        r
    }

    /// The language in force.
    pub fn language(&self) -> (r: Lang)
        ensures
            r == self@.l(),
    {
        Lang::get(&self.lang)
    }

    pub(crate) fn tell(&mut self, text: String, kind: MsgKind)
        ensures
            final(self)@ == old(self)@.told(text@, kind),
    {
        self.status = Some(StatusMsg { text, kind });
    }

    /// Tells whether the keys go to a binding or an edited value, so that the
    /// hotkeys must not drive the engine.
    pub fn is_interacting(&self) -> (r: bool)
        ensures
            r == !(self@.mode is Normal),
    {
        match self.mode {
            Mode::Normal => false,
            _ => true,
        }
    }
}

// ---------------------------------------------------------------------------
// The invariant
// ---------------------------------------------------------------------------

/// What can stand in the buffer while an execution order is edited: some of the
/// three letters, none of them twice.
pub open spec fn order_buffer(buf: Seq<char>) -> bool {
    &&& buf.len() <= 3
    &&& forall|i: int| 0 <= i < buf.len() ==> config::is_slot_letter(#[trigger] buf[i])
    &&& buf.no_duplicates()
}

/// A mode fits the field to which it belongs.
pub open spec fn mode_fits(mode: ModeView) -> bool {
    match mode {
        ModeView::Normal => true,
        ModeView::Capture { field } => field <= fields::F_ROUTER,
        ModeView::Edit { field, buf } => fields::F_SWITCH <= field <= fields::F_SHOOT_OFF
            && text::all_digits(buf),
        ModeView::OrderEdit { field, buf } => field == fields::F_ORDER && order_buffer(buf),
    }
}

/// A table or a configuration is wanted by the start of the program.
pub open spec fn from_start(caller: CallerView) -> bool {
    caller is Restore
}

pub open spec fn goal_from_start(goal: GoalView) -> bool {
    match goal {
        GoalView::LoadDialog => false,
        GoalView::FirstOfTable { table, caller } => from_start(caller),
        GoalView::LastConfig { state } => true,
        GoalView::InsteadOfLast { state, index } => true,
    }
}

/// A task belongs to the start of the program.
pub open spec fn of_start(task: TaskView) -> bool {
    match task {
        TaskView::ApplyLoad { path, goal } => goal_from_start(goal),
        TaskView::ApplyStat { path, goal } => goal_from_start(goal),
        TaskView::ApplySession { path, goal } => goal_from_start(goal),
        TaskView::TableRead { table, caller } => from_start(caller),
        TaskView::TableCheck { table, content, items, entries, invalid, caller } => from_start(
            caller,
        ),
        TaskView::TableWrite { table, content, entries, caller } => from_start(caller),
        TaskView::TableSession { table, caller } => from_start(caller),
        TaskView::FindTable { table, state } => true,
        TaskView::FindConfig { path, state } => true,
        TaskView::DefaultFind { session } => true,
        TaskView::DefaultLoad { session } => true,
        TaskView::DefaultSave { session } => true,
        TaskView::RestoreSession => true,
        TaskView::StartStat => true,
        _ => false,
    }
}

/// A task between the change of the configuration and the moment when the
/// engine gets it.
pub open spec fn before_sync(task: TaskView) -> bool {
    task is ApplyStat || task is AutoSave || task is AutoStat || task is SwitchStat
}

impl AppView {
    /// A task fits the state.
    pub open spec fn task_fits(self) -> bool {
        match self.task {
            TaskView::TableCheck { table, content, items, entries, invalid, caller } =>
                entries.len() < items.len() <= usize::MAX,
            TaskView::TableWrite { table, content, entries, caller } => entries.len()
                <= usize::MAX,
            TaskView::SwitchLoad { index, tried } => index < self.router_files.len() && tried
                <= self.router_files.len(),
            TaskView::SwitchStat { index } => index < self.router_files.len(),
            TaskView::SwitchSession { index } => index < self.router_files.len(),
            TaskView::ApplyLoad { path, goal } => goal is InsteadOfLast ==> goal->index
                < self.router_files.len(),
            TaskView::ApplyStat { path, goal } => goal is InsteadOfLast ==> goal->index
                < self.router_files.len(),
            TaskView::ApplySession { path, goal } => goal is InsteadOfLast ==> goal->index
                < self.router_files.len(),
            TaskView::HotStat => self.config_source is Some,
            TaskView::HotLoad { mtime } => self.config_source is Some,
            _ => true,
        }
    }

    /// What holds at all times: the configuration is valid, and so is the one
    /// that the engine reads. Once the program has started, the watcher looks
    /// at the file of the configuration, and the engine reads the configuration
    /// that is shown, except while a change is on its way to it.
    pub open spec fn wf(self) -> bool {
        &&& config::valid_config(self.cfg)
        &&& config::valid_config(self.shared)
        &&& self.focus < fields::TOTAL_FIELDS
        &&& mode_fits(self.mode)
        &&& self.router_index < usize::MAX
        &&& self.router_files.len() <= usize::MAX
        &&& self.task_fits()
        &&& !of_start(self.task) ==> self.watched == self.config_source
        &&& !of_start(self.task) && !before_sync(self.task) ==> self.shared == self.cfg
    }
}

/// The program starts in a state that satisfies the invariant.
pub proof fn fresh_is_well_formed(lang: LangState)
    ensures
        fresh(lang).wf(),
{
    config::default_config_is_valid();
}

} // verus!
