//! The operations that need files and dialogs.
//!
//! A task says what is to be done next (`request`); the program around the
//! library does it and hands the outcome back (`resume`), until there is no
//! task left. What is read from a file goes through the validation here, so no
//! invalid configuration is ever used.

use vstd::prelude::*;

use crate::config;
use crate::config::{Config, ConfigView};
use crate::lang;
use crate::lang::Lang;
use crate::router;
use crate::router::{ItemView, RouterItem};
use crate::session::{SessionState, SessionView};
use crate::state;
use crate::state::{
    App, AppView, Caller, CallerView, DialogKind, EntryView, Goal, GoalView, MsgKind, RouterEntry,
    Task, TaskView,
};
use crate::text;
use crate::watcher::Mtime;

verus! {

// ---------------------------------------------------------------------------
// Requests and replies
// ---------------------------------------------------------------------------

/// What a task asks for.
#[derive(Debug)]
pub enum Request {
    /// Let the user choose a file; `source` is the active configuration file.
    Pick { kind: DialogKind, source: Option<String> },
    /// Find out whether a file exists.
    Exists { path: String },
    /// Read a configuration from a file.
    LoadConfig { path: String },
    /// Write a configuration to a file.
    SaveConfig { path: String, cfg: Config },
    /// Read the modification time of a file.
    Stat { path: String },
    /// Read a text from a file.
    ReadText { path: String },
    /// Find out where the name of an entry leads to, and whether the file at the
    /// path of the entry exists and what it holds.
    CheckEntry { table: String, name: String },
    /// Write a text to a file.
    WriteText { path: String, text: String },
    /// Write the session file.
    SaveSession { state: SessionState },
}

/// What a request holds.
pub enum RequestView {
    Pick { kind: DialogKind, source: Option<Seq<char>> },
    Exists { path: Seq<char> },
    LoadConfig { path: Seq<char> },
    SaveConfig { path: Seq<char>, cfg: ConfigView },
    Stat { path: Seq<char> },
    ReadText { path: Seq<char> },
    CheckEntry { table: Seq<char>, name: Seq<char> },
    WriteText { path: Seq<char>, text: Seq<char> },
    SaveSession { state: SessionView },
}

impl View for Request {
    type V = RequestView;

    open spec fn view(&self) -> RequestView {
        match *self {
            Request::Pick { kind, source } => RequestView::Pick {
                kind,
                source: text::opt_view(source),
            },
            Request::Exists { path } => RequestView::Exists { path: path@ },
            Request::LoadConfig { path } => RequestView::LoadConfig { path: path@ },
            Request::SaveConfig { path, cfg } => RequestView::SaveConfig {
                path: path@,
                cfg: cfg@,
            },
            Request::Stat { path } => RequestView::Stat { path: path@ },
            Request::ReadText { path } => RequestView::ReadText { path: path@ },
            Request::CheckEntry { table, name } => RequestView::CheckEntry {
                table: table@,
                name: name@,
            },
            Request::WriteText { path, text } => RequestView::WriteText {
                path: path@,
                text: text@,
            },
            Request::SaveSession { state } => RequestView::SaveSession { state: state@ },
        }
    }
}

pub open spec fn request_view(r: Option<Request>) -> Option<RequestView> {
    match r {
        Some(x) => Some(x@),
        None => None,
    }
}

/// The answer to a request.
#[derive(Debug)]
pub enum Reply {
    /// The file that was chosen; none where the dialog was cancelled.
    Picked(Option<String>),
    Found(bool),
    /// A configuration that was read but not validated, or why there is none.
    Loaded(Result<Config, String>),
    Stamp(Option<Mtime>),
    Done(Result<(), String>),
    Content(Result<String, String>),
    /// What was found out about an entry: whether its name is an absolute path,
    /// the path that it leads to from the directory of the table, whether the
    /// file exists, and what it holds.
    Checked { absolute: bool, beside: String, exists: bool, loaded: Result<Config, String> },
}

/// What a reply holds.
pub enum ReplyView {
    Picked(Option<Seq<char>>),
    Found(bool),
    Loaded(Result<ConfigView, Seq<char>>),
    Stamp(Option<Mtime>),
    Done(Result<(), Seq<char>>),
    Content(Result<Seq<char>, Seq<char>>),
    Checked {
        absolute: bool,
        beside: Seq<char>,
        exists: bool,
        loaded: Result<ConfigView, Seq<char>>,
    },
}

pub open spec fn content_view(r: Result<String, String>) -> Result<Seq<char>, Seq<char>> {
    match r {
        Ok(s) => Ok(s@),
        Err(e) => Err(e@),
    }
}

impl View for Reply {
    type V = ReplyView;

    open spec fn view(&self) -> ReplyView {
        match *self {
            Reply::Picked(p) => ReplyView::Picked(text::opt_view(p)),
            Reply::Found(b) => ReplyView::Found(b),
            Reply::Loaded(r) => ReplyView::Loaded(config::read_view(r)),
            Reply::Stamp(t) => ReplyView::Stamp(t),
            Reply::Done(r) => ReplyView::Done(text::outcome_view(r)),
            Reply::Content(r) => ReplyView::Content(content_view(r)),
            Reply::Checked { absolute, beside, exists, loaded } => ReplyView::Checked {
                absolute,
                beside: beside@,
                exists,
                loaded: config::read_view(loaded),
            },
        }
    }
}

// ---------------------------------------------------------------------------
// Helpers
// ---------------------------------------------------------------------------

/// The default configuration file.
pub open spec fn default_file() -> Seq<char> {
    "zwtcfg.json"@
}

/// The first usable entry from `i` on.
pub open spec fn usable_from(files: Seq<EntryView>, i: nat) -> Option<usize>
    decreases files.len() - i,
{
    if i >= files.len() {
        None
    } else if files[i as int].valid {
        Some(i as usize)
    } else {
        usable_from(files, i + 1)
    }
}

/// The first usable entry.
pub open spec fn first_usable(files: Seq<EntryView>) -> Option<usize> {
    usable_from(files, 0)
}

/// The first usable entry from `i` on whose path is the given one, upper and
/// lower case aside.
pub open spec fn entry_for(files: Seq<EntryView>, path: Seq<char>, i: nat) -> Option<usize>
    decreases files.len() - i,
{
    if i >= files.len() {
        None
    } else if files[i as int].valid && text::lower(files[i as int].path) == text::lower(path) {
        Some(i as usize)
    } else {
        entry_for(files, path, i + 1)
    }
}

/// The number of entries that cannot be used.
pub open spec fn unusable(files: Seq<EntryView>) -> nat
    decreases files.len(),
{
    if files.len() == 0 {
        0
    } else {
        unusable(files.drop_last()) + if files.last().valid {
            0nat
        } else {
            1nat
        }
    }
}

fn find_usable(files: &Vec<RouterEntry>) -> (r: Option<usize>)
    ensures
        r == first_usable(state::entry_views(files@)),
        r matches Some(i) ==> i < files@.len(),
{
    let ghost all = state::entry_views(files@);
    let mut i: usize = 0;
    while i < files.len()
        invariant
            i <= files@.len(),
            all == state::entry_views(files@),
            first_usable(all) == usable_from(all, i as nat),
        decreases files@.len() - i,
    {
        proof {
            assert(all[i as int] == files@[i as int]@);
        }
        if files[i].valid {
            return Some(i);
        }
        i = i + 1;
    }
    None
}

fn find_entry(files: &Vec<RouterEntry>, path: &str) -> (r: Option<usize>)
    ensures
        r == entry_for(state::entry_views(files@), path@, 0),
        r matches Some(i) ==> i < files@.len(),
{
    let ghost all = state::entry_views(files@);
    let wanted = text::to_lower(path);
    let mut i: usize = 0;
    while i < files.len()
        invariant
            i <= files@.len(),
            all == state::entry_views(files@),
            wanted@ == text::lower(path@),
            entry_for(all, path@, 0) == entry_for(all, path@, i as nat),
        decreases files@.len() - i,
    {
        proof {
            assert(all[i as int] == files@[i as int]@);
        }
        if files[i].valid && text::same_text(
            text::to_lower(files[i].path.as_str()).as_str(),
            wanted.as_str(),
        ) {
            return Some(i);
        }
        i = i + 1;
    }
    None
}

fn count_unusable(files: &Vec<RouterEntry>) -> (r: usize)
    ensures
        r == unusable(state::entry_views(files@)),
{
    let ghost all = state::entry_views(files@);
    let mut n: usize = 0;
    let mut i: usize = 0;
    while i < files.len()
        invariant
            i <= files@.len(),
            n <= i,
            all == state::entry_views(files@),
            n == unusable(all.take(i as int)),
        decreases files@.len() - i,
    {
        proof {
            assert(all.take(i + 1).drop_last() =~= all.take(i as int));
            assert(all.take(i + 1).last() == files@[i as int]@);
        }
        if !files[i].valid {
            n = n + 1;
        }
        i = i + 1;
    }
    proof {
        assert(all.take(i as int) =~= all);
    }
    n
}

/// What is wrong with an entry; nothing where it can be used.
pub open spec fn entry_fault(
    l: Lang,
    exists: bool,
    loaded: Result<ConfigView, Seq<char>>,
) -> Seq<char> {
    if !exists {
        lang::pick(l, "文件不存在"@, "File does not exist"@)
    } else {
        match config::admitted(l, loaded) {
            Ok(_) => ""@,
            Err(e) => e,
        }
    }
}

/// Tells what is wrong with an entry of a router table: its file has to exist
/// and to hold a valid configuration. Nothing is wrong where the text is empty.
pub fn validate_router_entry(l: Lang, exists: bool, loaded: Result<Config, String>) -> (r: String)
    ensures
        r@ == entry_fault(l, exists, config::read_view(loaded)),
{
    if !exists {
        return lang::tr(l, "文件不存在", "File does not exist").to_string();
    }
    match config::accept_read(l, loaded) {
        Ok(_) => "".to_string(),
        Err(e) => e,
    }
}

/// The comment that marks an entry.
pub open spec fn marker_text(l: Lang, name: Seq<char>, fault: Seq<char>) -> Seq<char> {
    lang::pick(l, "# [无效] "@, "# [invalid] "@) + name + ": "@ + fault
}

fn marker_comment(l: Lang, name: &str, fault: &str) -> (r: String)
    ensures
        r@ == marker_text(l, name@, fault@),
{
    let mut out = lang::tr(l, "# [无效] ", "# [invalid] ").to_string();
    out.append(name);
    out.append(": ");
    out.append(fault);
    out
}

/// The name that is proposed for an export: that of the active configuration
/// file.
pub fn default_export_name(file_name: Option<String>) -> (r: String)
    ensures
        r@ == match text::opt_view(file_name) {
            Some(n) => n,
            None => default_file(),
        },
{
    match file_name {
        Some(n) => n,
        None => "zwtcfg.json".to_string(),
    }
}

/// The title of a dialog.
pub fn dialog_title(l: Lang, kind: DialogKind) -> (r: &'static str)
    ensures
        r@ == match kind {
            DialogKind::Export => lang::pick(l, "导出配置"@, "Export Config"@),
            DialogKind::Load => lang::pick(l, "读取配置"@, "Load Config"@),
            DialogKind::Router => lang::pick(l, "载入路由配置"@, "Load Router Config"@),
        },
{
    match kind {
        DialogKind::Export => lang::tr(l, "导出配置", "Export Config"),
        DialogKind::Load => lang::tr(l, "读取配置", "Load Config"),
        DialogKind::Router => lang::tr(l, "载入路由配置", "Load Router Config"),
    }
}

// ---------------------------------------------------------------------------
// What each reply does
// ---------------------------------------------------------------------------

impl AppView {
    /// What is remembered of the current state.
    pub open spec fn session(self) -> SessionView {
        SessionView {
            last_config: self.config_source,
            last_router: self.router_path,
            router_index: self.router_index,
            language: Some(self.l()),
        }
    }

    /// A failure to save the session is told, and nothing else happens.
    pub open spec fn session_saved(self, r: Result<(), Seq<char>>) -> AppView {
        match r {
            Ok(_) => self,
            Err(e) => self.told(
                lang::message(
                    self.l(),
                    "保存会话状态失败: {}"@,
                    "Failed to save session state: {}"@,
                    seq![e],
                ),
                MsgKind::Failure,
            ),
        }
    }

    // Dialogs

    /// The user chose a file, or cancelled the dialog.
    pub open spec fn picked(self, kind: DialogKind, path: Option<Seq<char>>) -> AppView {
        match (kind, path) {
            (DialogKind::Export, Some(p)) => self.at(TaskView::Export { path: p }),
            (DialogKind::Export, None) => self.told(
                lang::pick(self.l(), "已取消导出"@, "Export cancelled"@),
                MsgKind::Info,
            ).idle(),
            (DialogKind::Load, Some(p)) => self.at(
                TaskView::ApplyLoad { path: p, goal: GoalView::LoadDialog },
            ),
            (DialogKind::Load, None) => self.told(
                lang::pick(self.l(), "已取消读取"@, "Load cancelled"@),
                MsgKind::Info,
            ).idle(),
            (DialogKind::Router, Some(p)) => self.at(
                TaskView::TableRead { table: p, caller: CallerView::Dialog },
            ),
            (DialogKind::Router, None) => self.told(
                lang::pick(self.l(), "已取消载入路由"@, "Router load cancelled"@),
                MsgKind::Info,
            ).idle(),
        }
    }

    /// The configuration was exported.
    pub open spec fn exported(self, path: Seq<char>, r: Result<(), Seq<char>>) -> AppView {
        match r {
            Ok(_) => self.told(
                lang::message(self.l(), "已导出到 {}"@, "Exported to {}"@, seq![path]),
                MsgKind::Success,
            ).idle(),
            Err(e) => self.told(
                lang::message(self.l(), "导出失败: {}"@, "Export failed: {}"@, seq![e]),
                MsgKind::Failure,
            ).idle(),
        }
    }

    // Applying a configuration

    /// A configuration was read: where it is valid it is used from now on, else
    /// everything stays as it is.
    pub open spec fn apply_loaded(
        self,
        path: Seq<char>,
        goal: GoalView,
        r: Result<ConfigView, Seq<char>>,
    ) -> AppView {
        match config::admitted(self.l(), r) {
            Ok(c) => AppView {
                cfg: c,
                config_source: Some(path),
                watched: Some(path),
                ..self
            }.at(TaskView::ApplyStat { path, goal }),
            Err(e) => self.not_applied(goal, e),
        }
    }

    /// The engine gets the configuration that was applied.
    pub open spec fn apply_stamped(
        self,
        path: Seq<char>,
        goal: GoalView,
        t: Option<Mtime>,
    ) -> AppView {
        AppView { config_mtime: t, shared: self.cfg, ..self }.at(
            TaskView::ApplySession { path, goal },
        )
    }

    /// What follows a configuration that was applied.
    pub open spec fn applied(self, path: Seq<char>, goal: GoalView) -> AppView {
        match goal {
            GoalView::LoadDialog => self.told(
                lang::message(
                    self.l(),
                    "已读取 {} (当前行为基于该配置)"@,
                    "Loaded {} (current behavior is based on this config)"@,
                    seq![path],
                ),
                MsgKind::Success,
            ).idle(),
            GoalView::FirstOfTable { table, caller } => self.at(
                TaskView::TableSession { table, caller },
            ),
            GoalView::LastConfig { state } => self.aligned(state),
            GoalView::InsteadOfLast { state, index } => AppView {
                router_index: index,
                ..self
            }.aligned(state),
        }
    }

    /// What follows a configuration that could not be applied.
    pub open spec fn not_applied(self, goal: GoalView, e: Seq<char>) -> AppView {
        match goal {
            GoalView::LoadDialog => self.told(
                lang::message(self.l(), "读取失败: {}"@, "Load failed: {}"@, seq![e]),
                MsgKind::Failure,
            ).idle(),
            GoalView::FirstOfTable { table, caller } => self.told(
                lang::message(
                    self.l(),
                    "已载入路由但加载 #{} 失败: {}"@,
                    "Router loaded but failed to load #{}: {}"@,
                    seq![text::decimal((self.router_index + 1) as nat), e],
                ),
                MsgKind::Failure,
            ).at(TaskView::TableSession { table, caller }),
            GoalView::LastConfig { state } => self.falling_back(state),
            GoalView::InsteadOfLast { state, index } => self.at(
                TaskView::DefaultFind { session: Some(state) },
            ),
        }
    }

    // Loading a router table

    /// A router table was read: where it can be parsed, its entries are checked
    /// one by one.
    pub open spec fn table_read(
        self,
        table: Seq<char>,
        caller: CallerView,
        r: Result<Seq<char>, Seq<char>>,
    ) -> AppView {
        match r {
            Err(e) => self.table_refused(
                caller,
                lang::message(
                    self.l(),
                    "读取路由文件失败: {}"@,
                    "Failed to read router file: {}"@,
                    seq![e],
                ),
            ),
            Ok(content) => match router::parse_result(self.l(), content) {
                Err(e) => self.table_refused(
                    caller,
                    lang::message(
                        self.l(),
                        "路由文件语法/规范错误: {}"@,
                        "Router file syntax/spec error: {}"@,
                        seq![e],
                    ),
                ),
                Ok(items) => self.at(
                    TaskView::TableCheck {
                        table,
                        content,
                        items,
                        entries: seq![],
                        invalid: seq![],
                        caller,
                    },
                ),
            },
        }
    }

    /// One more entry was checked. After the last one the table is written with
    /// the markers of the entries that cannot be used, where there are any.
    pub open spec fn entry_checked(
        self,
        table: Seq<char>,
        content: Seq<char>,
        items: Seq<ItemView>,
        entries: Seq<EntryView>,
        invalid: Seq<(nat, Seq<char>)>,
        caller: CallerView,
        absolute: bool,
        beside: Seq<char>,
        exists: bool,
        loaded: Result<ConfigView, Seq<char>>,
    ) -> AppView {
        let item = items[entries.len() as int];
        let path = router::located(absolute, item.name, beside);
        let fault = entry_fault(self.l(), exists, loaded);
        let valid = fault.len() == 0;
        let entries = entries.push(EntryView { path, valid, error: fault });
        let invalid = if valid {
            invalid
        } else {
            invalid.push((item.line, marker_text(self.l(), item.name, fault)))
        };
        if entries.len() < items.len() {
            self.at(TaskView::TableCheck { table, content, items, entries, invalid, caller })
        } else if invalid.len() > 0 {
            self.at(
                TaskView::TableWrite {
                    table,
                    content: router::rewritten(content, invalid),
                    entries,
                    caller,
                },
            )
        } else {
            self.table_accepted(table, entries, caller)
        }
    }

    /// The table was written.
    pub open spec fn table_written(
        self,
        table: Seq<char>,
        entries: Seq<EntryView>,
        caller: CallerView,
        r: Result<(), Seq<char>>,
    ) -> AppView {
        match r {
            Err(e) => self.table_refused(
                caller,
                lang::message(
                    self.l(),
                    "写入无效标记注释失败: {}"@,
                    "Failed to write invalid marker comment: {}"@,
                    seq![e],
                ),
            ),
            Ok(_) => self.table_accepted(table, entries, caller),
        }
    }

    /// The table is used from now on, and its first usable entry is applied.
    pub open spec fn table_accepted(
        self,
        table: Seq<char>,
        entries: Seq<EntryView>,
        caller: CallerView,
    ) -> AppView {
        let s = AppView { router_files: entries, router_path: Some(table), ..self };
        match first_usable(entries) {
            Some(i) => AppView { router_index: i, ..s }.at(
                TaskView::ApplyLoad {
                    path: entries[i as int].path,
                    goal: GoalView::FirstOfTable { table, caller },
                },
            ),
            None => s.at(TaskView::TableSession { table, caller }),
        }
    }

    /// The table could not be loaded; the one before is kept.
    pub open spec fn table_refused(self, caller: CallerView, e: Seq<char>) -> AppView {
        match caller {
            CallerView::Dialog => self.told(
                lang::message(self.l(), "载入路由失败: {}"@, "Router load failed: {}"@, seq![e]),
                MsgKind::Failure,
            ).idle(),
            CallerView::Restore { state } => self.told(
                lang::message(
                    self.l(),
                    "自动恢复路由失败（跳过）: {}"@,
                    "Auto-restore router failed (skipped): {}"@,
                    seq![e],
                ),
                MsgKind::Failure,
            ).restoring_config(state),
        }
    }

    /// The table is loaded.
    pub open spec fn table_loaded(self, table: Seq<char>, caller: CallerView) -> AppView {
        match caller {
            CallerView::Dialog => {
                let n = unusable(self.router_files);
                self.told(
                    lang::message(
                        self.l(),
                        "已载入路由 {} ({} 个配置，{} 个无效)"@,
                        "Router loaded {} ({} configs, {} invalid)"@,
                        seq![
                            table,
                            text::decimal(self.router_files.len()),
                            text::decimal(n),
                        ],
                    ),
                    if n == 0 {
                        MsgKind::Success
                    } else {
                        MsgKind::Info
                    },
                ).idle()
            },
            CallerView::Restore { state } => self.restoring_config(state),
        }
    }

    // Restoring the last session

    /// The last session is restored: its language, unless one is imposed, then
    /// its router table, then its configuration. Without a session the default
    /// configuration is used.
    pub open spec fn restoring(self, state: Option<SessionView>, imposed: Option<Lang>) -> AppView {
        match state {
            None => self.at(TaskView::DefaultFind { session: None }),
            Some(s) => {
                let lang = match (imposed, s.language) {
                    (None, Some(l)) => self.lang.with(l),
                    _ => self.lang,
                };
                AppView { lang, ..self }.restoring_table(s)
            },
        }
    }

    pub open spec fn restoring_table(self, s: SessionView) -> AppView {
        match s.last_router {
            Some(table) => self.at(TaskView::FindTable { table, state: s }),
            None => self.restoring_config(s),
        }
    }

    /// The last table is loaded where it is still there.
    pub open spec fn table_found(self, table: Seq<char>, s: SessionView, found: bool) -> AppView {
        if found {
            self.at(TaskView::TableRead { table, caller: CallerView::Restore { state: s } })
        } else {
            self.restoring_config(s)
        }
    }

    pub open spec fn restoring_config(self, s: SessionView) -> AppView {
        match s.last_config {
            Some(path) => self.at(TaskView::FindConfig { path, state: s }),
            None => self.falling_back(s),
        }
    }

    /// The last configuration is applied where it is still there.
    pub open spec fn config_found(self, path: Seq<char>, s: SessionView, found: bool) -> AppView {
        if found {
            self.at(TaskView::ApplyLoad { path, goal: GoalView::LastConfig { state: s } })
        } else {
            self.falling_back(s)
        }
    }

    /// Instead of the last configuration, the first usable entry of the router
    /// table is applied; without one, the default configuration is used.
    pub open spec fn falling_back(self, s: SessionView) -> AppView {
        match first_usable(self.router_files) {
            Some(i) => self.at(
                TaskView::ApplyLoad {
                    path: self.router_files[i as int].path,
                    goal: GoalView::InsteadOfLast { state: s, index: i },
                },
            ),
            None => self.at(TaskView::DefaultFind { session: Some(s) }),
        }
    }

    /// The position in the router table that belongs to the restored session:
    /// that of the active configuration; else the recorded one, where it can be
    /// used; else the first usable one.
    pub open spec fn position(self, recorded: usize) -> usize {
        let files = self.router_files;
        let active = match self.config_source {
            Some(path) => entry_for(files, path, 0),
            None => None,
        };
        if files.len() == 0 {
            self.router_index
        } else {
            match active {
                Some(i) => i,
                None => if recorded < files.len() && files[recorded as int].valid {
                    recorded
                } else {
                    match first_usable(files) {
                        Some(i) => i,
                        None => 0,
                    }
                },
            }
        }
    }

    /// The position in the table is aligned, and the restored session is saved.
    pub open spec fn aligned(self, s: SessionView) -> AppView {
        AppView { router_index: self.position(s.router_index), ..self }.at(
            TaskView::RestoreSession,
        )
    }

    // The default configuration

    /// The default file is read where it is there, and written where it is not.
    pub open spec fn default_found(self, state: Option<SessionView>, found: bool) -> AppView {
        if found {
            self.at(TaskView::DefaultLoad { session: state })
        } else {
            self.at(TaskView::DefaultSave { session: state })
        }
    }

    /// The default file becomes the active one.
    pub open spec fn default_used(self) -> AppView {
        AppView { config_source: Some(default_file()), watched: Some(default_file()), ..self }
    }

    pub open spec fn default_loaded(
        self,
        state: Option<SessionView>,
        r: Result<ConfigView, Seq<char>>,
    ) -> AppView {
        match config::admitted(self.l(), r) {
            Ok(c) => AppView { cfg: c, ..self }.default_used().told(
                lang::message(self.l(), "已自动加载 {}"@, "Auto-loaded {}"@, seq![default_file()]),
                MsgKind::Success,
            ).default_done(state),
            Err(e) => self.told(
                lang::message(
                    self.l(),
                    "自动加载 zwtcfg.json 失败: {}"@,
                    "Failed to auto-load zwtcfg.json: {}"@,
                    seq![e],
                ),
                MsgKind::Failure,
            ).default_done(state),
        }
    }

    pub open spec fn default_saved(
        self,
        state: Option<SessionView>,
        r: Result<(), Seq<char>>,
    ) -> AppView {
        match r {
            Ok(_) => self.default_used().told(
                lang::message(
                    self.l(),
                    "已生成默认配置 {}"@,
                    "Generated default config {}"@,
                    seq![default_file()],
                ),
                MsgKind::Success,
            ).default_done(state),
            Err(e) => self.told(
                lang::message(
                    self.l(),
                    "生成默认配置失败: {}"@,
                    "Failed to generate default config: {}"@,
                    seq![e],
                ),
                MsgKind::Failure,
            ).default_done(state),
        }
    }

    pub open spec fn default_done(self, state: Option<SessionView>) -> AppView {
        match state {
            Some(s) => self.aligned(s),
            None => self.starting(),
        }
    }

    /// The state is restored: where there is nothing to tell, the keys are
    /// explained; then the modification time of the configuration is read.
    pub open spec fn starting(self) -> AppView {
        let s = match self.status {
            Some(_) => self,
            None => self.told(
                lang::pick(
                    self.l(),
                    "Tab 切换项目, Enter 编辑/确认, 执行热键 启动/停止操作, Esc 退出"@,
                    "Tab to switch field, Enter to edit/confirm, execution hotkey to start/stop, Esc to exit"@,
                ),
                MsgKind::Info,
            ),
        };
        match self.config_source {
            Some(_) => s.at(TaskView::StartStat),
            None => s.started(None),
        }
    }

    /// The program runs: the watcher and the engine get what they need.
    pub open spec fn started(self, t: Option<Mtime>) -> AppView {
        AppView { config_mtime: t, watched: self.config_source, shared: self.cfg, ..self }.idle()
    }

    // Saving an edited configuration

    /// Where an edited configuration is saved: in the active file.
    pub open spec fn save_path(self) -> Seq<char> {
        match self.config_source {
            Some(p) => p,
            None => default_file(),
        }
    }

    pub open spec fn auto_saved(self, r: Result<(), Seq<char>>) -> AppView {
        let s = match r {
            Ok(_) => self,
            Err(e) => self.told(
                lang::message(self.l(), "自动保存失败: {}"@, "Auto-save failed: {}"@, seq![e]),
                MsgKind::Failure,
            ),
        };
        match self.config_source {
            Some(_) => s.at(TaskView::AutoStat),
            None => s.auto_stamped(None),
        }
    }

    /// The engine gets the edited configuration.
    pub open spec fn auto_stamped(self, t: Option<Mtime>) -> AppView {
        AppView { config_mtime: t, shared: self.cfg, ..self }.idle()
    }

    // Switching to the next entry

    /// An entry of the router table was read: where it holds a valid
    /// configuration it is used from now on, else the next one is tried, until
    /// all were.
    pub open spec fn switch_loaded(
        self,
        index: usize,
        tried: usize,
        r: Result<ConfigView, Seq<char>>,
    ) -> AppView {
        let files = self.router_files;
        let path = files[index as int].path;
        match config::admitted(self.l(), r) {
            Ok(c) => AppView {
                router_files: files.update(
                    index as int,
                    EntryView { path, valid: true, error: ""@ },
                ),
                router_index: index,
                cfg: c,
                config_source: Some(path),
                watched: Some(path),
                ..self
            }.at(TaskView::SwitchStat { index }),
            Err(e) => {
                let s = AppView {
                    router_files: files.update(
                        index as int,
                        EntryView { path, valid: false, error: e },
                    ),
                    ..self
                };
                if tried < files.len() {
                    s.at(
                        TaskView::SwitchLoad {
                            index: ((index + 1) % files.len() as int) as usize,
                            tried: (tried + 1) as usize,
                        },
                    )
                } else {
                    s.told(
                        lang::pick(
                            self.l(),
                            "速切失败: 路由中所有配置均无效"@,
                            "Quick-switch failed: all router configs are invalid"@,
                        ),
                        MsgKind::Failure,
                    ).idle()
                }
            },
        }
    }

    pub open spec fn switch_stamped(self, index: usize, t: Option<Mtime>) -> AppView {
        AppView { config_mtime: t, shared: self.cfg, ..self }.at(TaskView::SwitchSession { index })
    }

    pub open spec fn switched(self, index: usize, r: Result<(), Seq<char>>) -> AppView {
        self.session_saved(r).told(
            lang::message(
                self.l(),
                "速切: {}/{} → {}"@,
                "Quick-switch: {}/{} → {}"@,
                seq![
                    text::decimal((index + 1) as nat),
                    text::decimal(self.router_files.len()),
                    self.router_files[index as int].path,
                ],
            ),
            MsgKind::Success,
        ).idle()
    }

    // Reading a changed configuration again

    /// The active file was looked at: it is read again where its modification
    /// time is another one; where it is gone, that is told once.
    pub open spec fn hot_stamped(self, t: Option<Mtime>) -> AppView {
        match t {
            None => if self.config_mtime is Some {
                AppView { config_mtime: None, ..self }.told(
                    lang::message(
                        self.l(),
                        "配置文件 {} 已被删除（保持当前配置）"@,
                        "Config file {} was deleted (keeping current config)"@,
                        seq![self.save_path()],
                    ),
                    MsgKind::Failure,
                ).idle()
            } else {
                self.idle()
            },
            Some(m) => if self.config_mtime == Some(m) {
                self.idle()
            } else {
                self.at(TaskView::HotLoad { mtime: m })
            },
        }
    }

    /// The active file was read again: what is not valid is left aside.
    pub open spec fn hot_loaded(self, t: Mtime, r: Result<ConfigView, Seq<char>>) -> AppView {
        match config::admitted(self.l(), r) {
            Ok(c) => AppView {
                cfg: c,
                shared: c,
                watched: self.config_source,
                config_mtime: Some(t),
                ..self
            }.told(
                lang::message(
                    self.l(),
                    "已热读取外部修改 {}（运行中已生效）"@,
                    "Hot-loaded external change {} (applied while running)"@,
                    seq![self.save_path()],
                ),
                MsgKind::Success,
            ).idle(),
            Err(e) => self.told(
                lang::message(
                    self.l(),
                    "热读取失败（保持当前配置，稍后重试）: {}"@,
                    "Hot-load failed (keeping current config, will retry): {}"@,
                    seq![e],
                ),
                MsgKind::Failure,
            ).idle(),
        }
    }

    // All of it

    /// What the task asks for.
    pub open spec fn wanted(self) -> Option<RequestView> {
        match self.task {
            TaskView::Idle => None,
            TaskView::Pick { kind } => Some(
                RequestView::Pick { kind, source: self.config_source },
            ),
            TaskView::Export { path } => Some(RequestView::SaveConfig { path, cfg: self.cfg }),
            TaskView::ApplyLoad { path, goal } => Some(RequestView::LoadConfig { path }),
            TaskView::ApplyStat { path, goal } => Some(RequestView::Stat { path }),
            TaskView::ApplySession { path, goal } => Some(
                RequestView::SaveSession { state: self.session() },
            ),
            TaskView::TableRead { table, caller } => Some(RequestView::ReadText { path: table }),
            TaskView::TableCheck { table, content, items, entries, invalid, caller } => Some(
                RequestView::CheckEntry { table, name: items[entries.len() as int].name },
            ),
            TaskView::TableWrite { table, content, entries, caller } => Some(
                RequestView::WriteText { path: table, text: content },
            ),
            TaskView::TableSession { table, caller } => Some(
                RequestView::SaveSession { state: self.session() },
            ),
            TaskView::FindTable { table, state } => Some(RequestView::Exists { path: table }),
            TaskView::FindConfig { path, state } => Some(RequestView::Exists { path }),
            TaskView::DefaultFind { session } => Some(RequestView::Exists { path: default_file() }),
            TaskView::DefaultLoad { session } => Some(
                RequestView::LoadConfig { path: default_file() },
            ),
            TaskView::DefaultSave { session } => Some(
                RequestView::SaveConfig { path: default_file(), cfg: self.cfg },
            ),
            TaskView::RestoreSession => Some(RequestView::SaveSession { state: self.session() }),
            TaskView::StartStat => Some(RequestView::Stat { path: self.save_path() }),
            TaskView::AutoSave => Some(
                RequestView::SaveConfig { path: self.save_path(), cfg: self.cfg },
            ),
            TaskView::AutoStat => Some(RequestView::Stat { path: self.save_path() }),
            TaskView::SwitchLoad { index, tried } => Some(
                RequestView::LoadConfig { path: self.router_files[index as int].path },
            ),
            TaskView::SwitchStat { index } => Some(RequestView::Stat { path: self.save_path() }),
            TaskView::SwitchSession { index } => Some(
                RequestView::SaveSession { state: self.session() },
            ),
            TaskView::HotStat => Some(RequestView::Stat { path: self.save_path() }),
            TaskView::HotLoad { mtime } => Some(
                RequestView::LoadConfig { path: self.save_path() },
            ),
            TaskView::LangSession => Some(RequestView::SaveSession { state: self.session() }),
        }
    }

    #[verifier::opaque]
    pub open spec fn resumed_picked(self, path: Option<Seq<char>>) -> AppView {
        match self.task {
            TaskView::Pick { kind } => self.picked(kind, path),
            _ => self,
        }
    }

    #[verifier::opaque]
    pub open spec fn resumed_found(self, found: bool) -> AppView {
        match self.task {
            TaskView::FindTable { table, state } => self.table_found(table, state, found),
            TaskView::FindConfig { path, state } => self.config_found(path, state, found),
            TaskView::DefaultFind { session } => self.default_found(session, found),
            _ => self,
        }
    }

    #[verifier::opaque]
    pub open spec fn resumed_loaded(self, r: Result<ConfigView, Seq<char>>) -> AppView {
        match self.task {
            TaskView::ApplyLoad { path, goal } => self.apply_loaded(path, goal, r),
            TaskView::DefaultLoad { session } => self.default_loaded(session, r),
            TaskView::SwitchLoad { index, tried } => self.switch_loaded(index, tried, r),
            TaskView::HotLoad { mtime } => self.hot_loaded(mtime, r),
            _ => self,
        }
    }

    #[verifier::opaque]
    pub open spec fn resumed_stamped(self, t: Option<Mtime>) -> AppView {
        match self.task {
            TaskView::ApplyStat { path, goal } => self.apply_stamped(path, goal, t),
            TaskView::StartStat => self.started(t),
            TaskView::AutoStat => self.auto_stamped(t),
            TaskView::SwitchStat { index } => self.switch_stamped(index, t),
            TaskView::HotStat => self.hot_stamped(t),
            _ => self,
        }
    }

    #[verifier::opaque]
    pub open spec fn resumed_done(self, r: Result<(), Seq<char>>) -> AppView {
        match self.task {
            TaskView::Export { path } => self.exported(path, r),
            TaskView::ApplySession { path, goal } => self.session_saved(r).applied(path, goal),
            TaskView::TableWrite { table, content, entries, caller } => self.table_written(
                table,
                entries,
                caller,
                r,
            ),
            TaskView::TableSession { table, caller } => self.session_saved(r).table_loaded(
                table,
                caller,
            ),
            TaskView::DefaultSave { session } => self.default_saved(session, r),
            TaskView::RestoreSession => self.session_saved(r).starting(),
            TaskView::AutoSave => self.auto_saved(r),
            TaskView::SwitchSession { index } => self.switched(index, r),
            TaskView::LangSession => self.session_saved(r).idle(),
            _ => self,
        }
    }

    #[verifier::opaque]
    pub open spec fn resumed_content(self, r: Result<Seq<char>, Seq<char>>) -> AppView {
        match self.task {
            TaskView::TableRead { table, caller } => self.table_read(table, caller, r),
            _ => self,
        }
    }

    #[verifier::opaque]
    pub open spec fn resumed_checked(
        self,
        absolute: bool,
        beside: Seq<char>,
        exists: bool,
        loaded: Result<ConfigView, Seq<char>>,
    ) -> AppView {
        match self.task {
            TaskView::TableCheck { table, content, items, entries, invalid, caller } =>
                self.entry_checked(
                table,
                content,
                items,
                entries,
                invalid,
                caller,
                absolute,
                beside,
                exists,
                loaded,
            ),
            _ => self,
        }
    }

    /// What a reply does. One that does not answer the request of the task does
    /// nothing. The functions for the single kinds of replies are opaque, so
    /// that a proof over several steps unfolds only the ones that it reveals.
    pub open spec fn resumed(self, reply: ReplyView) -> AppView {
        match reply {
            ReplyView::Picked(path) => self.resumed_picked(path),
            ReplyView::Found(found) => self.resumed_found(found),
            ReplyView::Loaded(r) => self.resumed_loaded(r),
            ReplyView::Stamp(t) => self.resumed_stamped(t),
            ReplyView::Done(r) => self.resumed_done(r),
            ReplyView::Content(r) => self.resumed_content(r),
            ReplyView::Checked { absolute, beside, exists, loaded } => self.resumed_checked(
                absolute,
                beside,
                exists,
                loaded,
            ),
        }
    }
}

// ---------------------------------------------------------------------------
// Doing it
// ---------------------------------------------------------------------------

fn default_path() -> (r: String)
    ensures
        r@ == default_file(),
{
    "zwtcfg.json".to_string()
}

impl App {
    /// What is remembered of the current state.
    pub fn session_state(&self) -> (r: SessionState)
        ensures
            r@ == self@.session(),
    {
        SessionState {
            last_config: text::copied(&self.config_source),
            last_router: text::copied(&self.router_path),
            router_index: self.router_index,
            language: Some(self.language()),
        }
    }

    fn note_session_saved(&mut self, r: Result<(), String>)
        ensures
            final(self)@ == old(self)@.session_saved(text::outcome_view(r)),
    {
        match r {
            Ok(_) => {},
            Err(e) => {
                let l = self.language();
                let text = lang::fmt1(
                    l,
                    "保存会话状态失败: {}",
                    "Failed to save session state: {}",
                    e.as_str(),
                );
                self.tell(text, MsgKind::Failure);
            },
        }
    }

    fn go_idle(&mut self)
        ensures
            final(self)@ == old(self)@.idle(),
    {
        self.task = Task::Idle;
    }

    fn tell_with(&mut self, zh: &'static str, en: &'static str, arg: &str, kind: MsgKind)
        ensures
            final(self)@ == old(self)@.told(
                lang::message(old(self)@.l(), zh@, en@, seq![arg@]),
                kind,
            ),
    {
        let l = self.language();
        let text = lang::fmt1(l, zh, en, arg);
        self.tell(text, kind);
    }

    fn tell_plain(&mut self, zh: &'static str, en: &'static str, kind: MsgKind)
        ensures
            final(self)@ == old(self)@.told(lang::pick(old(self)@.l(), zh@, en@), kind),
    {
        let l = self.language();
        self.tell(lang::tr(l, zh, en).to_string(), kind);
    }

    fn on_picked(&mut self, kind: DialogKind, path: Option<String>)
        ensures
            final(self)@ == old(self)@.picked(kind, text::opt_view(path)),
    {
        match path {
            Some(p) => {
                self.task =
                match kind {
                    DialogKind::Export => Task::Export { path: p },
                    DialogKind::Load => Task::ApplyLoad { path: p, goal: Goal::LoadDialog },
                    DialogKind::Router => Task::TableRead { table: p, caller: Caller::Dialog },
                };
            },
            None => {
                match kind {
                    DialogKind::Export => {
                        self.tell_plain("已取消导出", "Export cancelled", MsgKind::Info);
                    },
                    DialogKind::Load => {
                        self.tell_plain("已取消读取", "Load cancelled", MsgKind::Info);
                    },
                    DialogKind::Router => {
                        self.tell_plain("已取消载入路由", "Router load cancelled", MsgKind::Info);
                    },
                }
                self.go_idle();
            },
        }
    }

    fn on_exported(&mut self, path: String, r: Result<(), String>)
        ensures
            final(self)@ == old(self)@.exported(path@, text::outcome_view(r)),
    {
        match r {
            Ok(_) => {
                self.tell_with("已导出到 {}", "Exported to {}", path.as_str(), MsgKind::Success);
            },
            Err(e) => {
                self.tell_with("导出失败: {}", "Export failed: {}", e.as_str(), MsgKind::Failure);
            },
        }
        self.go_idle();
    }

    fn on_apply_loaded(&mut self, path: String, goal: Goal, r: Result<Config, String>)
        requires
            old(self)@.router_index < usize::MAX,
        ensures
            final(self)@ == old(self)@.apply_loaded(path@, goal@, config::read_view(r)),
    {
        let l = self.language();
        match config::accept_read(l, r) {
            Ok(c) => {
                self.cfg = c;
                self.config_source = Some(path.clone());
                self.watched = Some(path.clone());
                self.task = Task::ApplyStat { path, goal };
            },
            Err(e) => {
                self.on_not_applied(goal, e);
            },
        }
    }

    fn on_apply_stamped(&mut self, path: String, goal: Goal, t: Option<Mtime>)
        ensures
            final(self)@ == old(self)@.apply_stamped(path@, goal@, t),
    {
        self.config_mtime = t;
        self.shared = self.cfg.clone();
        self.task = Task::ApplySession { path, goal };
    }

    fn on_applied(&mut self, path: String, goal: Goal)
        ensures
            final(self)@ == old(self)@.applied(path@, goal@),
    {
        match goal {
            Goal::LoadDialog => {
                self.tell_with(
                    "已读取 {} (当前行为基于该配置)",
                    "Loaded {} (current behavior is based on this config)",
                    path.as_str(),
                    MsgKind::Success,
                );
                self.go_idle();
            },
            Goal::FirstOfTable { table, caller } => {
                self.task = Task::TableSession { table, caller };
            },
            Goal::LastConfig { state } => {
                self.align(state);
            },
            Goal::InsteadOfLast { state, index } => {
                self.router_index = index;
                self.align(state);
            },
        }
    }

    fn on_not_applied(&mut self, goal: Goal, e: String)
        requires
            old(self)@.router_index < usize::MAX,
        ensures
            final(self)@ == old(self)@.not_applied(goal@, e@),
    {
        match goal {
            Goal::LoadDialog => {
                self.tell_with("读取失败: {}", "Load failed: {}", e.as_str(), MsgKind::Failure);
                self.go_idle();
            },
            Goal::FirstOfTable { table, caller } => {
                let l = self.language();
                let number = text::decimal_of(self.router_index as u64 + 1);
                let text = lang::fmt2(
                    l,
                    "已载入路由但加载 #{} 失败: {}",
                    "Router loaded but failed to load #{}: {}",
                    number.as_str(),
                    e.as_str(),
                );
                self.tell(text, MsgKind::Failure);
                self.task = Task::TableSession { table, caller };
            },
            Goal::LastConfig { state } => {
                self.fall_back(state);
            },
            Goal::InsteadOfLast { state, index } => {
                self.task = Task::DefaultFind { session: Some(state) };
            },
        }
    }

    fn on_table_read(&mut self, table: String, caller: Caller, r: Result<String, String>)
        ensures
            final(self)@ == old(self)@.table_read(table@, caller@, content_view(r)),
    {
        let l = self.language();
        match r {
            Err(e) => {
                let text = lang::fmt1(
                    l,
                    "读取路由文件失败: {}",
                    "Failed to read router file: {}",
                    e.as_str(),
                );
                self.refuse_table(caller, text);
            },
            Ok(content) => match router::parse_router_yaml(l, content.as_str()) {
                Err(e) => {
                    let text = lang::fmt1(
                        l,
                        "路由文件语法/规范错误: {}",
                        "Router file syntax/spec error: {}",
                        e.as_str(),
                    );
                    self.refuse_table(caller, text);
                },
                Ok(items) => {
                    let entries: Vec<RouterEntry> = Vec::new();
                    let invalid: Vec<(usize, String)> = Vec::new();
                    proof {
                        assert(state::entry_views(entries@) =~= Seq::<EntryView>::empty());
                        assert(router::marker_views(invalid@) =~= Seq::<
                            (nat, Seq<char>),
                        >::empty());
                    }
                    self.task = Task::TableCheck {
                        table,
                        content,
                        items,
                        entries,
                        invalid,
                        caller,
                    };
                },
            },
        }
    }

    fn on_entry_checked(
        &mut self,
        table: String,
        content: String,
        items: Vec<RouterItem>,
        entries: Vec<RouterEntry>,
        invalid: Vec<(usize, String)>,
        caller: Caller,
        absolute: bool,
        beside: String,
        exists: bool,
        loaded: Result<Config, String>,
    )
        requires
            entries@.len() < items@.len(),
        ensures
            final(self)@ == old(self)@.entry_checked(
                table@,
                content@,
                router::item_views(items@),
                state::entry_views(entries@),
                router::marker_views(invalid@),
                caller@,
                absolute,
                beside@,
                exists,
                config::read_view(loaded),
            ),
    {
        let l = self.language();
        let mut entries = entries;
        let mut invalid = invalid;
        let ghost entries0 = entries@;
        let ghost invalid0 = invalid@;
        let i: usize = entries.len();
        let fault = validate_router_entry(l, exists, loaded);
        let valid = fault.as_str().is_empty();
        proof {
            assert(router::item_views(items@)[i as int] == items@[i as int]@);
        }
        let path = router::entry_path(absolute, items[i].name.as_str(), beside.as_str());
        if !valid {
            let comment = marker_comment(l, items[i].name.as_str(), fault.as_str());
            invalid.push((items[i].line, comment));
            proof {
                assert(router::marker_views(invalid@) =~= router::marker_views(invalid0).push(
                    (items@[i as int].line as nat, comment@),
                ));
            }
        }
        entries.push(RouterEntry { path, valid, error: fault });
        proof {
            assert(state::entry_views(entries@) =~= state::entry_views(entries0).push(
                EntryView { path: path@, valid, error: fault@ },
            ));
        }
        if entries.len() < items.len() {
            self.task = Task::TableCheck { table, content, items, entries, invalid, caller };
        } else if invalid.len() > 0 {
            let marked = router::rewrite_with_markers(content.as_str(), invalid.as_slice());
            self.task = Task::TableWrite { table, content: marked, entries, caller };
        } else {
            self.accept_table(table, entries, caller);
        }
    }

    fn on_table_written(
        &mut self,
        table: String,
        entries: Vec<RouterEntry>,
        caller: Caller,
        r: Result<(), String>,
    )
        ensures
            final(self)@ == old(self)@.table_written(
                table@,
                state::entry_views(entries@),
                caller@,
                text::outcome_view(r),
            ),
    {
        match r {
            Err(e) => {
                let l = self.language();
                let text = lang::fmt1(
                    l,
                    "写入无效标记注释失败: {}",
                    "Failed to write invalid marker comment: {}",
                    e.as_str(),
                );
                self.refuse_table(caller, text);
            },
            Ok(_) => {
                self.accept_table(table, entries, caller);
            },
        }
    }

    fn accept_table(&mut self, table: String, entries: Vec<RouterEntry>, caller: Caller)
        ensures
            final(self)@ == old(self)@.table_accepted(
                table@,
                state::entry_views(entries@),
                caller@,
            ),
    {
        self.router_path = Some(table.clone());
        match find_usable(&entries) {
            Some(i) => {
                self.router_index = i;
                let path = entries[i].path.clone();
                proof {
                    assert(state::entry_views(entries@)[i as int] == entries@[i as int]@);
                }
                self.task =
                Task::ApplyLoad { path, goal: Goal::FirstOfTable { table, caller } };
            },
            None => {
                self.task = Task::TableSession { table, caller };
            },
        }
        self.router_files = entries;
    }

    fn refuse_table(&mut self, caller: Caller, e: String)
        ensures
            final(self)@ == old(self)@.table_refused(caller@, e@),
    {
        match caller {
            Caller::Dialog => {
                self.tell_with(
                    "载入路由失败: {}",
                    "Router load failed: {}",
                    e.as_str(),
                    MsgKind::Failure,
                );
                self.go_idle();
            },
            Caller::Restore { state } => {
                self.tell_with(
                    "自动恢复路由失败（跳过）: {}",
                    "Auto-restore router failed (skipped): {}",
                    e.as_str(),
                    MsgKind::Failure,
                );
                self.restore_config(state);
            },
        }
    }

    fn on_table_loaded(&mut self, table: String, caller: Caller)
        ensures
            final(self)@ == old(self)@.table_loaded(table@, caller@),
    {
        match caller {
            Caller::Dialog => {
                let l = self.language();
                let n: usize = count_unusable(&self.router_files);
                let text = lang::fmt3(
                    l,
                    "已载入路由 {} ({} 个配置，{} 个无效)",
                    "Router loaded {} ({} configs, {} invalid)",
                    table.as_str(),
                    text::decimal_of(self.router_files.len() as u64).as_str(),
                    text::decimal_of(n as u64).as_str(),
                );
                let kind = if n == 0 {
                    MsgKind::Success
                } else {
                    MsgKind::Info
                };
                self.tell(text, kind);
                self.go_idle();
            },
            Caller::Restore { state } => {
                self.restore_config(state);
            },
        }
    }

    /// Starts to restore the last session; a language that was imposed from
    /// outside is kept.
    pub fn restore_session(&mut self, state: Option<SessionState>, imposed: Option<Lang>)
        requires
            old(self)@.wf(),
        ensures
            final(self)@ == old(self)@.restoring(state::session_view(state), imposed),
            final(self)@.wf(),
    {
        proof {
            restoring_keeps_the_invariant(old(self)@, state::session_view(state), imposed);
        }
        match state {
            None => {
                self.task = Task::DefaultFind { session: None };
            },
            Some(s) => {
                if imposed.is_none() {
                    match s.language {
                        Some(l) => {
                            l.set(&mut self.lang);
                        },
                        None => {},
                    }
                }
                self.restore_table(s);
            },
        }
    }

    fn restore_table(&mut self, s: SessionState)
        ensures
            final(self)@ == old(self)@.restoring_table(s@),
    {
        match &s.last_router {
            Some(table) => {
                let table = table.clone();
                self.task = Task::FindTable { table, state: s };
            },
            None => {
                self.restore_config(s);
            },
        }
    }

    fn restore_config(&mut self, s: SessionState)
        ensures
            final(self)@ == old(self)@.restoring_config(s@),
    {
        match &s.last_config {
            Some(path) => {
                let path = path.clone();
                self.task = Task::FindConfig { path, state: s };
            },
            None => {
                self.fall_back(s);
            },
        }
    }

    fn fall_back(&mut self, s: SessionState)
        ensures
            final(self)@ == old(self)@.falling_back(s@),
    {
        match find_usable(&self.router_files) {
            Some(i) => {
                let path = self.router_files[i].path.clone();
                proof {
                    assert(self@.router_files[i as int] == self.router_files@[i as int]@);
                }
                self.task =
                Task::ApplyLoad { path, goal: Goal::InsteadOfLast { state: s, index: i } };
            },
            None => {
                self.task = Task::DefaultFind { session: Some(s) };
            },
        }
    }

    fn find_position(&self, recorded: usize) -> (r: usize)
        ensures
            r == self@.position(recorded),
    {
        if self.router_files.len() == 0 {
            return self.router_index;
        }
        match &self.config_source {
            Some(path) => {
                if let Some(i) = find_entry(&self.router_files, path.as_str()) {
                    return i;
                }
            },
            None => {},
        }
        proof {
            if recorded < self.router_files@.len() {
                assert(self@.router_files[recorded as int] == self.router_files@[recorded as int]@);
            }
        }
        if recorded < self.router_files.len() && self.router_files[recorded].valid {
            return recorded;
        }
        match find_usable(&self.router_files) {
            Some(i) => i,
            None => 0,
        }
    }

    fn align(&mut self, s: SessionState)
        ensures
            final(self)@ == old(self)@.aligned(s@),
    {
        let i: usize = self.find_position(s.router_index);
        self.router_index = i;
        self.task = Task::RestoreSession;
    }

    fn use_default(&mut self)
        ensures
            final(self)@ == old(self)@.default_used(),
    {
        self.config_source = Some(default_path());
        self.watched = Some(default_path());
    }

    fn on_default_loaded(&mut self, state: Option<SessionState>, r: Result<Config, String>)
        ensures
            final(self)@ == old(self)@.default_loaded(
                state::session_view(state),
                config::read_view(r),
            ),
    {
        let l = self.language();
        match config::accept_read(l, r) {
            Ok(c) => {
                self.cfg = c;
                self.use_default();
                self.tell_with(
                    "已自动加载 {}",
                    "Auto-loaded {}",
                    default_path().as_str(),
                    MsgKind::Success,
                );
            },
            Err(e) => {
                self.tell_with(
                    "自动加载 zwtcfg.json 失败: {}",
                    "Failed to auto-load zwtcfg.json: {}",
                    e.as_str(),
                    MsgKind::Failure,
                );
            },
        }
        self.finish_default(state);
    }

    fn on_default_saved(&mut self, state: Option<SessionState>, r: Result<(), String>)
        ensures
            final(self)@ == old(self)@.default_saved(
                state::session_view(state),
                text::outcome_view(r),
            ),
    {
        match r {
            Ok(_) => {
                self.use_default();
                self.tell_with(
                    "已生成默认配置 {}",
                    "Generated default config {}",
                    default_path().as_str(),
                    MsgKind::Success,
                );
            },
            Err(e) => {
                self.tell_with(
                    "生成默认配置失败: {}",
                    "Failed to generate default config: {}",
                    e.as_str(),
                    MsgKind::Failure,
                );
            },
        }
        self.finish_default(state);
    }

    fn finish_default(&mut self, state: Option<SessionState>)
        ensures
            final(self)@ == old(self)@.default_done(state::session_view(state)),
    {
        match state {
            Some(s) => {
                self.align(s);
            },
            None => {
                self.begin();
            },
        }
    }

    fn begin(&mut self)
        ensures
            final(self)@ == old(self)@.starting(),
    {
        if self.status.is_none() {
            self.tell_plain(
                "Tab 切换项目, Enter 编辑/确认, 执行热键 启动/停止操作, Esc 退出",
                "Tab to switch field, Enter to edit/confirm, execution hotkey to start/stop, Esc to exit",
                MsgKind::Info,
            );
        }
        if self.config_source.is_some() {
            self.task = Task::StartStat;
        } else {
            self.on_started(None);
        }
    }

    fn on_started(&mut self, t: Option<Mtime>)
        ensures
            final(self)@ == old(self)@.started(t),
    {
        self.config_mtime = t;
        self.watched = text::copied(&self.config_source);
        self.shared = self.cfg.clone();
        self.go_idle();
    }

    fn get_save_path(&self) -> (r: String)
        ensures
            r@ == self@.save_path(),
    {
        match &self.config_source {
            Some(p) => p.clone(),
            None => default_path(),
        }
    }

    fn on_auto_saved(&mut self, r: Result<(), String>)
        ensures
            final(self)@ == old(self)@.auto_saved(text::outcome_view(r)),
    {
        match r {
            Ok(_) => {},
            Err(e) => {
                self.tell_with(
                    "自动保存失败: {}",
                    "Auto-save failed: {}",
                    e.as_str(),
                    MsgKind::Failure,
                );
            },
        }
        if self.config_source.is_some() {
            self.task = Task::AutoStat;
        } else {
            self.on_auto_stamped(None);
        }
    }

    fn on_auto_stamped(&mut self, t: Option<Mtime>)
        ensures
            final(self)@ == old(self)@.auto_stamped(t),
    {
        self.config_mtime = t;
        self.shared = self.cfg.clone();
        self.go_idle();
    }

    fn on_switch_loaded(&mut self, index: usize, tried: usize, r: Result<Config, String>)
        requires
            index < old(self)@.router_files.len(),
            tried <= old(self)@.router_files.len(),
        ensures
            final(self)@ == old(self)@.switch_loaded(index, tried, config::read_view(r)),
    {
        let l = self.language();
        let n: usize = self.router_files.len();
        let ghost files = self.router_files@;
        let path = self.router_files[index].path.clone();
        proof {
            assert(self@.router_files[index as int] == files[index as int]@);
        }
        match config::accept_read(l, r) {
            Ok(c) => {
                let entry = RouterEntry {
                    path: path.clone(),
                    valid: true,
                    error: "".to_string(),
                };
                self.router_files.set(index, entry);
                proof {
                    assert(state::entry_views(self.router_files@) =~= state::entry_views(
                        files,
                    ).update(index as int, entry@));
                }
                self.router_index = index;
                self.cfg = c;
                self.config_source = Some(path.clone());
                self.watched = Some(path);
                self.task = Task::SwitchStat { index };
            },
            Err(e) => {
                let entry = RouterEntry { path, valid: false, error: e };
                self.router_files.set(index, entry);
                proof {
                    assert(state::entry_views(self.router_files@) =~= state::entry_views(
                        files,
                    ).update(index as int, entry@));
                }
                if tried < n {
                    self.task = Task::SwitchLoad { index: (index + 1) % n, tried: tried + 1 };
                } else {
                    self.tell_plain(
                        "速切失败: 路由中所有配置均无效",
                        "Quick-switch failed: all router configs are invalid",
                        MsgKind::Failure,
                    );
                    self.go_idle();
                }
            },
        }
    }

    fn on_switch_stamped(&mut self, index: usize, t: Option<Mtime>)
        ensures
            final(self)@ == old(self)@.switch_stamped(index, t),
    {
        self.config_mtime = t;
        self.shared = self.cfg.clone();
        self.task = Task::SwitchSession { index };
    }

    fn on_switched(&mut self, index: usize, r: Result<(), String>)
        requires
            index < old(self)@.router_files.len(),
        ensures
            final(self)@ == old(self)@.switched(index, text::outcome_view(r)),
    {
        self.note_session_saved(r);
        let l = self.language();
        proof {
            assert(self@.router_files[index as int] == self.router_files@[index as int]@);
        }
        let n: usize = self.router_files.len();
        let text = lang::fmt3(
            l,
            "速切: {}/{} → {}",
            "Quick-switch: {}/{} → {}",
            text::decimal_of(index as u64 + 1).as_str(),
            text::decimal_of(n as u64).as_str(),
            self.router_files[index].path.as_str(),
        );
        self.tell(text, MsgKind::Success);
        self.go_idle();
    }

    fn on_hot_stamped(&mut self, t: Option<Mtime>)
        ensures
            final(self)@ == old(self)@.hot_stamped(t),
    {
        match t {
            None => {
                if self.config_mtime.is_some() {
                    let path = self.get_save_path();
                    self.tell_with(
                        "配置文件 {} 已被删除（保持当前配置）",
                        "Config file {} was deleted (keeping current config)",
                        path.as_str(),
                        MsgKind::Failure,
                    );
                    self.config_mtime = None;
                }
                self.go_idle();
            },
            Some(m) => {
                if crate::watcher::same_time(self.config_mtime, Some(m)) {
                    self.go_idle();
                } else {
                    self.task = Task::HotLoad { mtime: m };
                }
            },
        }
    }

    fn on_hot_loaded(&mut self, t: Mtime, r: Result<Config, String>)
        ensures
            final(self)@ == old(self)@.hot_loaded(t, config::read_view(r)),
    {
        let l = self.language();
        let path = self.get_save_path();
        match config::accept_read(l, r) {
            Ok(c) => {
                self.shared = c.clone();
                self.cfg = c;
                self.watched = text::copied(&self.config_source);
                self.config_mtime = Some(t);
                self.tell_with(
                    "已热读取外部修改 {}（运行中已生效）",
                    "Hot-loaded external change {} (applied while running)",
                    path.as_str(),
                    MsgKind::Success,
                );
            },
            Err(e) => {
                self.tell_with(
                    "热读取失败（保持当前配置，稍后重试）: {}",
                    "Hot-load failed (keeping current config, will retry): {}",
                    e.as_str(),
                    MsgKind::Failure,
                );
            },
        }
        self.go_idle();
    }

    /// Opens a dialog.
    pub fn open_dialog(&mut self, kind: DialogKind)
        requires
            old(self)@.wf(),
            old(self)@.task is Idle,
        ensures
            final(self)@ == old(self)@.at(TaskView::Pick { kind }),
            final(self)@.wf(),
    {
        self.task = Task::Pick { kind };
    }

    /// What is to be done next for the task; nothing where there is none.
    pub fn request(&self) -> (r: Option<Request>)
        requires
            self@.wf(),
        ensures
            request_view(r) == self@.wanted(),
    {
        match &self.task {
            Task::Idle => None,
            Task::Pick { kind } => Some(
                Request::Pick { kind: *kind, source: text::copied(&self.config_source) },
            ),
            Task::Export { path } => Some(
                Request::SaveConfig { path: path.clone(), cfg: self.cfg.clone() },
            ),
            Task::ApplyLoad { path, goal } => Some(Request::LoadConfig { path: path.clone() }),
            Task::ApplyStat { path, goal } => Some(Request::Stat { path: path.clone() }),
            Task::ApplySession { path, goal } => Some(
                Request::SaveSession { state: self.session_state() },
            ),
            Task::TableRead { table, caller } => Some(Request::ReadText { path: table.clone() }),
            Task::TableCheck { table, content, items, entries, invalid, caller } => {
                let i: usize = entries.len();
                proof {
                    assert(router::item_views(items@)[i as int] == items@[i as int]@);
                }
                Some(Request::CheckEntry { table: table.clone(), name: items[i].name.clone() })
            },
            Task::TableWrite { table, content, entries, caller } => Some(
                Request::WriteText { path: table.clone(), text: content.clone() },
            ),
            Task::TableSession { table, caller } => Some(
                Request::SaveSession { state: self.session_state() },
            ),
            Task::FindTable { table, state } => Some(Request::Exists { path: table.clone() }),
            Task::FindConfig { path, state } => Some(Request::Exists { path: path.clone() }),
            Task::DefaultFind { session } => Some(Request::Exists { path: default_path() }),
            Task::DefaultLoad { session } => Some(Request::LoadConfig { path: default_path() }),
            Task::DefaultSave { session } => Some(
                Request::SaveConfig { path: default_path(), cfg: self.cfg.clone() },
            ),
            Task::RestoreSession => Some(Request::SaveSession { state: self.session_state() }),
            Task::StartStat => Some(Request::Stat { path: self.get_save_path() }),
            Task::AutoSave => Some(
                Request::SaveConfig { path: self.get_save_path(), cfg: self.cfg.clone() },
            ),
            Task::AutoStat => Some(Request::Stat { path: self.get_save_path() }),
            Task::SwitchLoad { index, tried } => {
                let i: usize = *index;
                proof {
                    assert(self@.router_files[i as int] == self.router_files@[i as int]@);
                }
                Some(Request::LoadConfig { path: self.router_files[i].path.clone() })
            },
            Task::SwitchStat { index } => Some(Request::Stat { path: self.get_save_path() }),
            Task::SwitchSession { index } => Some(
                Request::SaveSession { state: self.session_state() },
            ),
            Task::HotStat => Some(Request::Stat { path: self.get_save_path() }),
            Task::HotLoad { mtime } => Some(Request::LoadConfig { path: self.get_save_path() }),
            Task::LangSession => Some(Request::SaveSession { state: self.session_state() }),
        }
    }

    fn take_task(&mut self) -> (r: Task)
        ensures
            r@ == old(self)@.task,
            final(self)@ == old(self)@.idle(),
    {
        let mut task = Task::Idle;
        core::mem::swap(&mut self.task, &mut task);
        task
    }

    fn resume_picked(&mut self, p: Option<String>)
        requires
            old(self)@.wf(),
        ensures
            final(self)@ == old(self)@.resumed_picked(text::opt_view(p)),
            final(self)@.wf(),
    {
        proof {
            reveal(AppView::resumed_picked);
            lemma_picked(old(self)@, text::opt_view(p));
        }
        match self.take_task() {
            Task::Pick { kind } => self.on_picked(kind, p),
            task => {
                self.task = task;
            },
        }
    }

    fn resume_found(&mut self, b: bool)
        requires
            old(self)@.wf(),
        ensures
            final(self)@ == old(self)@.resumed_found(b),
            final(self)@.wf(),
    {
        proof {
            reveal(AppView::resumed_found);
            lemma_found(old(self)@, b);
        }
        match self.take_task() {
            Task::FindTable { table, state } => {
                if b {
                    self.task = Task::TableRead { table, caller: Caller::Restore { state } };
                } else {
                    self.restore_config(state);
                }
            },
            Task::FindConfig { path, state } => {
                if b {
                    self.task = Task::ApplyLoad { path, goal: Goal::LastConfig { state } };
                } else {
                    self.fall_back(state);
                }
            },
            Task::DefaultFind { session } => {
                if b {
                    self.task = Task::DefaultLoad { session };
                } else {
                    self.task = Task::DefaultSave { session };
                }
            },
            task => {
                self.task = task;
            },
        }
    }

    #[verifier::rlimit(30)]
    fn resume_loaded(&mut self, r: Result<Config, String>)
        requires
            old(self)@.wf(),
        ensures
            final(self)@ == old(self)@.resumed_loaded(config::read_view(r)),
            final(self)@.wf(),
    {
        proof {
            reveal(AppView::resumed_loaded);
            lemma_loaded(old(self)@, config::read_view(r));
        }
        match self.take_task() {
            Task::ApplyLoad { path, goal } => self.on_apply_loaded(path, goal, r),
            Task::DefaultLoad { session } => self.on_default_loaded(session, r),
            Task::SwitchLoad { index, tried } => self.on_switch_loaded(index, tried, r),
            Task::HotLoad { mtime } => self.on_hot_loaded(mtime, r),
            task => {
                self.task = task;
            },
        }
    }

    fn resume_stamped(&mut self, t: Option<Mtime>)
        requires
            old(self)@.wf(),
        ensures
            final(self)@ == old(self)@.resumed_stamped(t),
            final(self)@.wf(),
    {
        proof {
            reveal(AppView::resumed_stamped);
            lemma_stamped(old(self)@, t);
        }
        match self.take_task() {
            Task::ApplyStat { path, goal } => self.on_apply_stamped(path, goal, t),
            Task::StartStat => self.on_started(t),
            Task::AutoStat => self.on_auto_stamped(t),
            Task::SwitchStat { index } => self.on_switch_stamped(index, t),
            Task::HotStat => self.on_hot_stamped(t),
            task => {
                self.task = task;
            },
        }
    }

    #[verifier::rlimit(30)]
    fn resume_done(&mut self, r: Result<(), String>)
        requires
            old(self)@.wf(),
        ensures
            final(self)@ == old(self)@.resumed_done(text::outcome_view(r)),
            final(self)@.wf(),
    {
        let ghost before = self@;
        let ghost result = text::outcome_view(r);
        proof {
            lemma_done(before, result);
            lemma_done_cases(before, result);
        }
        match self.take_task() {
            Task::Export { path } => self.on_exported(path, r),
            Task::ApplySession { path, goal } => {
                self.note_session_saved(r);
                self.on_applied(path, goal);
            },
            Task::TableWrite { table, content, entries, caller } => self.on_table_written(
                table,
                entries,
                caller,
                r,
            ),
            Task::TableSession { table, caller } => {
                self.note_session_saved(r);
                self.on_table_loaded(table, caller);
            },
            Task::DefaultSave { session } => self.on_default_saved(session, r),
            Task::RestoreSession => {
                self.note_session_saved(r);
                self.begin();
            },
            Task::AutoSave => self.on_auto_saved(r),
            Task::SwitchSession { index } => self.on_switched(index, r),
            Task::LangSession => {
                self.note_session_saved(r);
                self.go_idle();
            },
            task => {
                self.task = task;
            },
        }
    }

    fn resume_content(&mut self, r: Result<String, String>)
        requires
            old(self)@.wf(),
        ensures
            final(self)@ == old(self)@.resumed_content(content_view(r)),
            final(self)@.wf(),
    {
        proof {
            reveal(AppView::resumed_content);
        }
        let ghost before = self@;
        match self.take_task() {
            Task::TableRead { table, caller } => self.on_table_read(table, caller, r),
            task => {
                self.task = task;
            },
        }
        proof {
            lemma_content_fits(before, content_view(r), *self);
        }
    }

    fn resume_checked(
        &mut self,
        absolute: bool,
        beside: String,
        exists: bool,
        loaded: Result<Config, String>,
    )
        requires
            old(self)@.wf(),
        ensures
            final(self)@ == old(self)@.resumed_checked(
                absolute,
                beside@,
                exists,
                config::read_view(loaded),
            ),
            final(self)@.wf(),
    {
        proof {
            reveal(AppView::resumed_checked);
            lemma_checked(old(self)@, absolute, beside@, exists, config::read_view(loaded));
        }
        match self.take_task() {
            Task::TableCheck { table, content, items, entries, invalid, caller } =>
                self.on_entry_checked(
                table,
                content,
                items,
                entries,
                invalid,
                caller,
                absolute,
                beside,
                exists,
                loaded,
            ),
            task => {
                self.task = task;
            },
        }
    }

    /// Goes on with the answer to the request. An answer to another request is
    /// ignored.
    pub fn resume(&mut self, reply: Reply)
        requires
            old(self)@.wf(),
        ensures
            final(self)@ == old(self)@.resumed(reply@),
            final(self)@.wf(),
    {
        match reply {
            Reply::Picked(p) => self.resume_picked(p),
            Reply::Found(b) => self.resume_found(b),
            Reply::Loaded(r) => self.resume_loaded(r),
            Reply::Stamp(t) => self.resume_stamped(t),
            Reply::Done(r) => self.resume_done(r),
            Reply::Content(r) => self.resume_content(r),
            Reply::Checked { absolute, beside, exists, loaded } => self.resume_checked(
                absolute,
                beside,
                exists,
                loaded,
            ),
        }
    }
}

// ---------------------------------------------------------------------------
// The invariant
// ---------------------------------------------------------------------------

proof fn lemma_admitted(l: Lang, r: Result<ConfigView, Seq<char>>)
    ensures
        config::admitted(l, r) matches Ok(c) ==> config::valid_config(c),
{
    if let Ok(c) = r {
        config::order_faults_are_exact(c.execution_order);
    }
}

/// What is found from `i` on is a usable entry.
pub proof fn lemma_usable_from(files: Seq<EntryView>, i: nat)
    requires
        files.len() <= usize::MAX,
    ensures
        usable_from(files, i) matches Some(k) ==> i <= k < files.len() && files[k as int].valid,
    decreases files.len() - i,
{
    if i < files.len() && !files[i as int].valid {
        lemma_usable_from(files, i + 1);
    }
}

/// What is found from `i` on is a usable entry.
pub proof fn lemma_entry_for(files: Seq<EntryView>, path: Seq<char>, i: nat)
    requires
        files.len() <= usize::MAX,
    ensures
        entry_for(files, path, i) matches Some(k) ==> i <= k < files.len()
            && files[k as int].valid,
    decreases files.len() - i,
{
    if i < files.len() && !(files[i as int].valid && text::lower(files[i as int].path)
        == text::lower(path)) {
        lemma_entry_for(files, path, i + 1);
    }
}

/// The part of the invariant that does not depend on the task.
spec fn sound(s: AppView) -> bool {
    &&& config::valid_config(s.cfg)
    &&& config::valid_config(s.shared)
    &&& s.focus < crate::fields::TOTAL_FIELDS
    &&& state::mode_fits(s.mode)
    &&& s.router_index < usize::MAX
    &&& s.router_files.len() <= usize::MAX
}

proof fn lemma_aligned(s: AppView, st: SessionView)
    requires
        sound(s),
    ensures
        s.aligned(st).wf(),
{
    lemma_usable_from(s.router_files, 0);
    if let Some(path) = s.config_source {
        lemma_entry_for(s.router_files, path, 0);
    }
}

proof fn lemma_falling_back(s: AppView, st: SessionView)
    requires
        sound(s),
    ensures
        s.falling_back(st).wf(),
{
    lemma_usable_from(s.router_files, 0);
}

proof fn lemma_restoring_config(s: AppView, st: SessionView)
    requires
        sound(s),
    ensures
        s.restoring_config(st).wf(),
{
    lemma_falling_back(s, st);
}

proof fn lemma_starting(s: AppView)
    requires
        sound(s),
    ensures
        s.starting().wf(),
{
}

proof fn lemma_default_done(s: AppView, st: Option<SessionView>)
    requires
        sound(s),
    ensures
        s.default_done(st).wf(),
{
    match st {
        Some(x) => lemma_aligned(s, x),
        None => lemma_starting(s),
    }
}

/// Restoring a session keeps the invariant.
pub proof fn restoring_keeps_the_invariant(
    s: AppView,
    state: Option<SessionView>,
    imposed: Option<Lang>,
)
    requires
        s.wf(),
    ensures
        s.restoring(state, imposed).wf(),
{
    if let Some(st) = state {
        let lang = match (imposed, st.language) {
            (None, Some(l)) => s.lang.with(l),
            _ => s.lang,
        };
        lemma_restoring_config(AppView { lang, ..s }, st);
    }
}

proof fn lemma_apply_loaded(
    s: AppView,
    path: Seq<char>,
    goal: GoalView,
    r: Result<ConfigView, Seq<char>>,
)
    requires
        s.wf(),
        s.task == (TaskView::ApplyLoad { path, goal }),
    ensures
        s.apply_loaded(path, goal, r).wf(),
{
    lemma_admitted(s.l(), r);
    if let GoalView::LastConfig { state } = goal {
        lemma_falling_back(s, state);
    }
}

proof fn lemma_switch_loaded(
    s: AppView,
    index: usize,
    tried: usize,
    r: Result<ConfigView, Seq<char>>,
)
    requires
        s.wf(),
        s.task == (TaskView::SwitchLoad { index, tried }),
    ensures
        s.switch_loaded(index, tried, r).wf(),
{
    lemma_admitted(s.l(), r);
}

proof fn lemma_default_loaded(
    s: AppView,
    session: Option<SessionView>,
    r: Result<ConfigView, Seq<char>>,
)
    requires
        s.wf(),
    ensures
        s.default_loaded(session, r).wf(),
{
    lemma_admitted(s.l(), r);
    match config::admitted(s.l(), r) {
        Ok(c) => {
            let t = AppView { cfg: c, ..s }.default_used().told(
                lang::message(s.l(), "已自动加载 {}"@, "Auto-loaded {}"@, seq![default_file()]),
                MsgKind::Success,
            );
            lemma_default_done(t, session);
        },
        Err(e) => {
            let t = s.told(
                lang::message(
                    s.l(),
                    "自动加载 zwtcfg.json 失败: {}"@,
                    "Failed to auto-load zwtcfg.json: {}"@,
                    seq![e],
                ),
                MsgKind::Failure,
            );
            lemma_default_done(t, session);
        },
    }
}

proof fn lemma_default_saved(s: AppView, session: Option<SessionView>, r: Result<(), Seq<char>>)
    requires
        s.wf(),
    ensures
        s.default_saved(session, r).wf(),
{
    match r {
        Ok(_) => {
            let t = s.default_used().told(
                lang::message(
                    s.l(),
                    "已生成默认配置 {}"@,
                    "Generated default config {}"@,
                    seq![default_file()],
                ),
                MsgKind::Success,
            );
            lemma_default_done(t, session);
        },
        Err(e) => {
            let t = s.told(
                lang::message(
                    s.l(),
                    "生成默认配置失败: {}"@,
                    "Failed to generate default config: {}"@,
                    seq![e],
                ),
                MsgKind::Failure,
            );
            lemma_default_done(t, session);
        },
    }
}

proof fn lemma_table_refused(s: AppView, caller: CallerView, e: Seq<char>)
    requires
        sound(s),
        caller is Dialog ==> s.watched == s.config_source && s.shared == s.cfg,
    ensures
        s.table_refused(caller, e).wf(),
{
    if let CallerView::Restore { state } = caller {
        let t = s.told(
            lang::message(
                s.l(),
                "自动恢复路由失败（跳过）: {}"@,
                "Auto-restore router failed (skipped): {}"@,
                seq![e],
            ),
            MsgKind::Failure,
        );
        lemma_restoring_config(t, state);
    }
}

proof fn lemma_table_accepted(
    s: AppView,
    table: Seq<char>,
    entries: Seq<EntryView>,
    caller: CallerView,
)
    requires
        sound(s),
        entries.len() <= usize::MAX,
        caller is Dialog ==> s.watched == s.config_source && s.shared == s.cfg,
    ensures
        s.table_accepted(table, entries, caller).wf(),
{
    lemma_usable_from(entries, 0);
}

proof fn lemma_applied(s: AppView, path: Seq<char>, goal: GoalView)
    requires
        sound(s),
        goal is InsteadOfLast ==> goal->index < s.router_files.len(),
        !state::goal_from_start(goal) ==> s.watched == s.config_source && s.shared == s.cfg,
    ensures
        s.applied(path, goal).wf(),
{
    match goal {
        GoalView::LastConfig { state } => lemma_aligned(s, state),
        GoalView::InsteadOfLast { state, index } => lemma_aligned(
            AppView { router_index: index, ..s },
            state,
        ),
        _ => {},
    }
}

proof fn lemma_table_loaded(s: AppView, table: Seq<char>, caller: CallerView)
    requires
        sound(s),
        caller is Dialog ==> s.watched == s.config_source && s.shared == s.cfg,
    ensures
        s.table_loaded(table, caller).wf(),
{
    if let CallerView::Restore { state } = caller {
        lemma_restoring_config(s, state);
    }
}

#[verifier::rlimit(30)]
proof fn lemma_done(s: AppView, r: Result<(), Seq<char>>)
    requires
        s.wf(),
    ensures
        s.resumed_done(r).wf(),
{
    reveal(AppView::resumed_done);
    let saved = s.session_saved(r);
    match s.task {
        TaskView::ApplySession { path, goal } => lemma_applied(saved, path, goal),
        TaskView::TableWrite { table, content, entries, caller } => {
            lemma_table_accepted(s, table, entries, caller);
            if let Err(e) = r {
                lemma_table_refused(
                    s,
                    caller,
                    lang::message(
                        s.l(),
                        "写入无效标记注释失败: {}"@,
                        "Failed to write invalid marker comment: {}"@,
                        seq![e],
                    ),
                );
            }
        },
        TaskView::TableSession { table, caller } => lemma_table_loaded(saved, table, caller),
        TaskView::DefaultSave { session } => lemma_default_saved(s, session, r),
        TaskView::RestoreSession => lemma_starting(saved),
        _ => {},
    }
}

/// What a finished write does depends on the rest of the state alone.
#[verifier::rlimit(30)]
proof fn lemma_done_cases(s: AppView, r: Result<(), Seq<char>>)
    ensures
        match s.task {
            TaskView::Export { path } => s.resumed_done(r) == s.idle().exported(path, r),
            TaskView::ApplySession { path, goal } => s.resumed_done(r) == s.idle().session_saved(r).applied(path, goal),
            TaskView::TableWrite { table, content, entries, caller } => s.resumed_done(r) == s.idle().table_written(table, entries, caller, r),
            TaskView::TableSession { table, caller } => s.resumed_done(r) == s.idle().session_saved(r).table_loaded(table, caller),
            TaskView::DefaultSave { session } => s.resumed_done(r) == s.idle().default_saved(session, r),
            TaskView::RestoreSession => s.resumed_done(r) == s.idle().session_saved(r).starting(),
            TaskView::AutoSave => s.resumed_done(r) == s.idle().auto_saved(r),
            TaskView::SwitchSession { index } => s.resumed_done(r) == s.idle().switched(index, r),
            TaskView::LangSession => s.resumed_done(r) == s.idle().session_saved(r).idle(),
            _ => s.resumed_done(r) == s,
        },
{
    reveal(AppView::resumed_done);
}

proof fn lemma_content(s: AppView, r: Result<Seq<char>, Seq<char>>)
    requires
        s.wf(),
        holdable(ReplyView::Content(r)),
    ensures
        s.resumed_content(r).wf(),
{
    reveal(AppView::resumed_content);
    if let TaskView::TableRead { table, caller } = s.task {
        match r {
            Err(e) => lemma_table_refused(
                s,
                caller,
                lang::message(
                    s.l(),
                    "读取路由文件失败: {}"@,
                    "Failed to read router file: {}"@,
                    seq![e],
                ),
            ),
            Ok(content) => match router::parse_result(s.l(), content) {
                Err(e) => lemma_table_refused(
                    s,
                    caller,
                    lang::message(
                        s.l(),
                        "路由文件语法/规范错误: {}"@,
                        "Router file syntax/spec error: {}"@,
                        seq![e],
                    ),
                ),
                Ok(items) => {},
            },
        }
    }
}

proof fn lemma_checked(
    s: AppView,
    absolute: bool,
    beside: Seq<char>,
    exists: bool,
    loaded: Result<ConfigView, Seq<char>>,
)
    requires
        s.wf(),
    ensures
        s.resumed_checked(absolute, beside, exists, loaded).wf(),
{
    reveal(AppView::resumed_checked);
    if let TaskView::TableCheck { table, content, items, entries, invalid, caller } = s.task {
        let fault = entry_fault(s.l(), exists, loaded);
        let path = router::located(absolute, items[entries.len() as int].name, beside);
        let longer = entries.push(EntryView { path, valid: fault.len() == 0, error: fault });
        lemma_table_accepted(s, table, longer, caller);
    }
}

/// A table that is held in memory is one that the machine can hold.
proof fn lemma_content_fits(s: AppView, r: Result<Seq<char>, Seq<char>>, after: App)
    requires
        s.wf(),
        after@ == s.resumed_content(r),
    ensures
        after@.wf(),
{
    reveal(AppView::resumed_content);
    if s.task is TableRead {
        if let Task::TableCheck { table, content, items, entries, invalid, caller } = after.task {
            assert(items.len() <= usize::MAX);
            assert(router::item_views(items@).len() == items@.len());
            lemma_content(s, r);
        } else {
            assert(!(after@.task is TableCheck));
            lemma_content(s, r);
        }
    }
}

proof fn lemma_picked(s: AppView, p: Option<Seq<char>>)
    requires
        s.wf(),
    ensures
        s.resumed_picked(p).wf(),
{
    reveal(AppView::resumed_picked);
}

proof fn lemma_found(s: AppView, b: bool)
    requires
        s.wf(),
    ensures
        s.resumed_found(b).wf(),
{
    reveal(AppView::resumed_found);
    match s.task {
        TaskView::FindTable { table, state } => lemma_restoring_config(s, state),
        TaskView::FindConfig { path, state } => lemma_falling_back(s, state),
        _ => {},
    }
}

proof fn lemma_loaded(s: AppView, r: Result<ConfigView, Seq<char>>)
    requires
        s.wf(),
    ensures
        s.resumed_loaded(r).wf(),
{
    reveal(AppView::resumed_loaded);
    match s.task {
        TaskView::ApplyLoad { path, goal } => lemma_apply_loaded(s, path, goal, r),
        TaskView::DefaultLoad { session } => lemma_default_loaded(s, session, r),
        TaskView::SwitchLoad { index, tried } => lemma_switch_loaded(s, index, tried, r),
        TaskView::HotLoad { mtime } => lemma_admitted(s.l(), r),
        _ => {},
    }
}

proof fn lemma_stamped(s: AppView, t: Option<Mtime>)
    requires
        s.wf(),
    ensures
        s.resumed_stamped(t).wf(),
{
    reveal(AppView::resumed_stamped);
}

/// A reply of a size that the machine can hold: a table has no more entries
/// than a list can have.
pub open spec fn holdable(reply: ReplyView) -> bool {
    reply matches ReplyView::Content(Ok(content)) ==> (router::table(content) matches Ok(items)
        ==> items.len() <= usize::MAX)
}

/// Whatever the outside replies: the configuration stays valid, and the rest of
/// the invariant is kept.
pub proof fn replies_keep_the_invariant(s: AppView, reply: ReplyView)
    requires
        s.wf(),
        holdable(reply),
    ensures
        s.resumed(reply).wf(),
{
    match reply {
        ReplyView::Picked(p) => lemma_picked(s, p),
        ReplyView::Found(b) => lemma_found(s, b),
        ReplyView::Loaded(r) => lemma_loaded(s, r),
        ReplyView::Stamp(t) => lemma_stamped(s, t),
        ReplyView::Done(r) => lemma_done(s, r),
        ReplyView::Content(r) => lemma_content(s, r),
        ReplyView::Checked { absolute, beside, exists, loaded } => lemma_checked(
            s,
            absolute,
            beside,
            exists,
            loaded,
        ),
    }
}

} // verus!
