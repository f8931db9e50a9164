use std::collections::HashMap;

use zombies_weapon_tool::config::{Config, ExecutionMode};
use zombies_weapon_tool::edit::{Event, KeyCode};
use zombies_weapon_tool::engine::EngineMsg;
use zombies_weapon_tool::fields::{
    A_EXPORT, A_LANG, A_ROUTER, F_EXEC_KEY, F_MODE, F_ORDER, F_RANDOM, F_SHOOT, F_SWITCH,
    F_SWITCH_OFF, F_WEAPON1,
};
use zombies_weapon_tool::flow::{
    default_export_name, dialog_title, validate_router_entry, Reply, Request,
};
use zombies_weapon_tool::keymap::{Button, Key};
use zombies_weapon_tool::lang::{Lang, LangState};
use zombies_weapon_tool::router::entry_path;
use zombies_weapon_tool::session::SessionState;
use zombies_weapon_tool::state::{App, Caller, DialogKind, Mode, MsgKind, RouterEntry, Task};
use zombies_weapon_tool::watcher::Mtime;

fn order(o: &str) -> Config {
    let mut c = Config::default();
    c.execution_order = o.to_string();
    c
}

/// The files of a test: configurations, texts, and what was written.
struct World {
    configs: HashMap<String, Config>,
    corrupt: Vec<String>,
    texts: HashMap<String, String>,
    times: HashMap<String, i64>,
    picked: Option<String>,
    saved: Vec<(String, Config)>,
    written: Vec<(String, String)>,
    sessions: Vec<SessionState>,
    failing: bool,
}

impl World {
    fn new() -> World {
        World {
            configs: HashMap::new(),
            corrupt: Vec::new(),
            texts: HashMap::new(),
            times: HashMap::new(),
            picked: None,
            saved: Vec::new(),
            written: Vec::new(),
            sessions: Vec::new(),
            failing: false,
        }
    }

    fn put(&mut self, path: &str, c: Config) {
        self.configs.insert(path.to_string(), c);
        self.times.insert(path.to_string(), 1);
    }

    fn load(&self, path: &str) -> Result<Config, String> {
        if self.corrupt.iter().any(|p| p == path) {
            return Err("expected value at line 1".to_string());
        }
        match self.configs.get(path) {
            Some(c) => Ok(c.clone()),
            None => Err("No such file".to_string()),
        }
    }

    fn done(&self) -> Reply {
        Reply::Done(if self.failing { Err("disk full".to_string()) } else { Ok(()) })
    }

    fn answer(&mut self, request: Request) -> Reply {
        match request {
            Request::Pick { .. } => Reply::Picked(self.picked.clone()),
            Request::Exists { path } => Reply::Found(
                self.configs.contains_key(&path)
                    || self.texts.contains_key(&path)
                    || self.corrupt.contains(&path),
            ),
            Request::LoadConfig { path } => Reply::Loaded(self.load(&path)),
            Request::SaveConfig { path, cfg } => {
                if !self.failing {
                    self.times.insert(path.clone(), 9);
                    self.configs.insert(path.clone(), cfg.clone());
                }
                self.saved.push((path, cfg));
                self.done()
            }
            Request::Stat { path } => Reply::Stamp(
                self.times.get(&path).map(|t| Mtime { secs: *t, nanos: 0 }),
            ),
            Request::ReadText { path } => Reply::Content(match self.texts.get(&path) {
                Some(t) => Ok(t.clone()),
                None => Err("No such file".to_string()),
            }),
            Request::CheckEntry { table, name } => {
                let absolute = name.starts_with('/');
                let beside = match table.rfind('/') {
                    Some(i) => format!("{}/{}", &table[..i], name),
                    None => name.clone(),
                };
                let path = entry_path(absolute, &name, &beside);
                let exists = self.configs.contains_key(&path) || self.corrupt.contains(&path);
                let loaded = self.load(&path);
                Reply::Checked { absolute, beside, exists, loaded }
            }
            Request::WriteText { path, text } => {
                self.written.push((path.clone(), text.clone()));
                self.texts.insert(path, text);
                self.done()
            }
            Request::SaveSession { state } => {
                self.sessions.push(state);
                self.done()
            }
        }
    }

    /// Answers all requests until there is none left.
    fn drive(&mut self, app: &mut App) {
        for _ in 0..200 {
            match app.request() {
                Some(r) => {
                    let reply = self.answer(r);
                    app.resume(reply);
                }
                None => return,
            }
        }
        panic!("the operation does not end");
    }
}

fn chinese() -> LangState {
    LangState { global: Lang::En, local: Some(Lang::Zh) }
}

fn test_app() -> App {
    App::new(chinese())
}

/// Makes a file the active one, which the watcher looks at.
fn use_file(app: &mut App, path: &str) {
    app.config_source = Some(path.to_string());
    app.watched = Some(path.to_string());
}

fn entry(name: &str) -> RouterEntry {
    RouterEntry { path: name.to_string(), valid: true, error: String::new() }
}

fn key(code: KeyCode) -> Event {
    Event::Key { code, press: true }
}

fn text_of(app: &App) -> &str {
    app.status.as_ref().unwrap().text.as_str()
}

fn kind_of(app: &App) -> MsgKind {
    app.status.as_ref().unwrap().kind
}

#[test]
fn router_next_skips_invalid_and_cycles() {
    let mut w = World::new();
    w.put("good1.json", order("A"));
    w.put("good2.json", order("B"));
    let mut app = test_app();
    app.router_files = vec![
        entry("good1.json"),
        RouterEntry {
            path: "bad.json".to_string(),
            valid: false,
            error: "文件不存在".to_string(),
        },
        entry("good2.json"),
    ];
    app.router_index = 0;
    app.handle_message(EngineMsg::RouterNext);
    w.drive(&mut app);
    assert_eq!(app.router_index, 2, "should skip invalid entries");
    assert_eq!(app.cfg.execution_order, "B", "should load #3's config");
    assert_eq!(text_of(&app), "速切: 3/3 → good2.json");
    app.handle_message(EngineMsg::RouterNext);
    w.drive(&mut app);
    assert_eq!(app.router_index, 0, "should cycle back to the first");
    assert_eq!(app.cfg.execution_order, "A");
    assert_eq!(app.shared.execution_order, "A");
    assert_eq!(app.watched.as_deref(), Some("good1.json"));
    assert_eq!(w.sessions.last().unwrap().last_config.as_deref(), Some("good1.json"));
    // A file that was corrupted since is passed over and marked.
    w.corrupt.push("good2.json".to_string());
    app.handle_message(EngineMsg::RouterNext);
    w.drive(&mut app);
    assert_eq!(app.router_index, 0);
    assert!(!app.router_files[2].valid);
    assert_eq!(app.router_files[2].error, "expected value at line 1");
}

#[test]
fn switching_without_a_usable_entry_changes_nothing() {
    let mut w = World::new();
    let mut app = test_app();
    app.handle_message(EngineMsg::RouterNext);
    assert!(app.request().is_none());
    assert_eq!(text_of(&app), "未载入路由 (zwtcfg_router.yaml)，请先在操作中载入");
    app.router_files = vec![entry("x.json"), entry("y.json")];
    app.handle_message(EngineMsg::RouterNext);
    w.drive(&mut app);
    assert_eq!(app.cfg.execution_order, "ABC");
    assert_eq!(app.router_index, 0);
    assert_eq!(text_of(&app), "速切失败: 路由中所有配置均无效");
    assert!(app.router_files.iter().all(|f| !f.valid && f.error == "No such file"));
    assert_eq!(app.router_files[1].path, "y.json");
    assert_eq!((app.watched.clone(), app.config_mtime), (None, None));
    assert_eq!(kind_of(&app), MsgKind::Failure);
    assert!(w.sessions.is_empty());
}

#[test]
fn hot_read_reloads_external_change() {
    let mut w = World::new();
    w.put("cfg.json", order("A"));
    let mut app = test_app();
    use_file(&mut app, "cfg.json");
    app.config_mtime = Some(Mtime { secs: 0, nanos: 0 });
    app.handle_message(EngineMsg::ConfigReload);
    w.drive(&mut app);
    assert_eq!(app.cfg.execution_order, "A", "hot-read should load external content");
    assert_eq!(app.shared.execution_order, "A");
    assert!(app.config_mtime.is_some(), "should record a new mtime");
    w.put("cfg.json", order("B"));
    app.config_mtime = Some(Mtime { secs: 0, nanos: 0 });
    app.handle_message(EngineMsg::ConfigReload);
    w.drive(&mut app);
    assert_eq!(app.cfg.execution_order, "B", "second hot-read should update");
    assert!(w.saved.is_empty(), "a hot-read never writes");
}

#[test]
fn hot_read_ignores_unchanged_file() {
    let mut w = World::new();
    w.put("cfg.json", order("A"));
    let mut app = test_app();
    use_file(&mut app, "cfg.json");
    app.config_mtime = Some(Mtime { secs: 1, nanos: 0 });
    app.cfg.execution_order = "C".to_string();
    app.shared = app.cfg.clone();
    app.handle_message(EngineMsg::ConfigReload);
    w.drive(&mut app);
    assert_eq!(app.cfg.execution_order, "C", "unchanged mtime should not reload");
}

#[test]
fn hot_read_keeps_current_on_corrupt() {
    let mut w = World::new();
    w.put("cfg.json", order("A"));
    w.corrupt.push("cfg.json".to_string());
    let mut app = test_app();
    use_file(&mut app, "cfg.json");
    app.config_mtime = Some(Mtime { secs: 0, nanos: 0 });
    app.cfg.execution_order = "ABC".to_string();
    app.shared = app.cfg.clone();
    app.handle_message(EngineMsg::ConfigReload);
    w.drive(&mut app);
    assert_eq!(app.cfg.execution_order, "ABC", "corrupt file should not overwrite");
    assert_eq!(app.config_mtime, Some(Mtime { secs: 0, nanos: 0 }), "it is tried again");
    assert_eq!(
        text_of(&app),
        "热读取失败（保持当前配置，稍后重试）: expected value at line 1"
    );
}

#[test]
fn a_deleted_file_is_told_once() {
    let mut w = World::new();
    let mut app = test_app();
    use_file(&mut app, "cfg.json");
    app.config_mtime = Some(Mtime { secs: 0, nanos: 0 });
    app.handle_message(EngineMsg::ConfigReload);
    w.drive(&mut app);
    assert_eq!(text_of(&app), "配置文件 cfg.json 已被删除（保持当前配置）");
    assert_eq!(app.config_mtime, None);
    app.status = None;
    app.handle_message(EngineMsg::ConfigReload);
    w.drive(&mut app);
    assert!(app.status.is_none());
}

#[test]
fn an_invalid_file_is_not_hot_read() {
    let mut w = World::new();
    w.put("cfg.json", order("AA"));
    let mut app = test_app();
    use_file(&mut app, "cfg.json");
    app.handle_message(EngineMsg::ConfigReload);
    w.drive(&mut app);
    assert_eq!(app.cfg.execution_order, "ABC");
    assert_eq!(
        text_of(&app),
        "热读取失败（保持当前配置，稍后重试）: execution_order 含重复字符 A"
    );
}

#[test]
fn auto_save_writes_to_current_source() {
    let mut w = World::new();
    w.put("custom.json", order("A"));
    let mut app = test_app();
    use_file(&mut app, "custom.json");
    app.cfg.execution_order = "ABC".to_string();
    app.cfg.execution_hotkey = "F6".to_string();
    app.task = Task::AutoSave;
    w.drive(&mut app);
    let (path, cfg) = &w.saved[0];
    assert_eq!(path, "custom.json", "save target should be config_source");
    assert_eq!(cfg.execution_order, "ABC");
    assert_eq!(cfg.execution_hotkey, "F6");
    assert_eq!(app.shared.execution_hotkey, "F6");
    assert_eq!(app.config_mtime, Some(Mtime { secs: 9, nanos: 0 }));
}

#[test]
fn without_a_source_the_default_file_is_saved() {
    let mut w = World::new();
    w.failing = true;
    let mut app = test_app();
    app.focus = F_RANDOM;
    assert!(app.handle_event(key(KeyCode::Enter)).is_none());
    w.drive(&mut app);
    assert_eq!(w.saved[0].0, "zwtcfg.json");
    assert!(app.shared.random_execution, "a failed save does not undo the edit");
    assert_eq!(text_of(&app), "自动保存失败: disk full");
    assert_eq!(app.config_mtime, None);
}

fn load_table(app: &mut App, w: &mut World, table: &str) {
    app.open_dialog(DialogKind::Router);
    w.picked = Some(table.to_string());
    w.drive(app);
}

#[test]
fn load_router_path_loads_and_applies_first_valid() {
    let mut w = World::new();
    w.put("d/one.json", order("A"));
    w.put("d/two.json", order("B"));
    w.texts.insert("d/router.yaml".into(), "config:\n  - one.json\n  - two.json\n".into());
    let mut app = test_app();
    load_table(&mut app, &mut w, "d/router.yaml");
    assert_eq!(app.router_path.as_deref(), Some("d/router.yaml"));
    assert_eq!(app.router_files.len(), 2);
    assert_eq!(app.router_index, 0, "should highlight the first valid entry");
    assert_eq!(app.cfg.execution_order, "A", "should auto-load the first valid config");
    assert_eq!(app.config_source.as_deref(), Some("d/one.json"));
    let state = w.sessions.last().unwrap();
    assert_eq!(state.last_router.as_deref(), Some("d/router.yaml"));
    assert_eq!(state.last_config.as_deref(), Some("d/one.json"));
    assert_eq!(state.router_index, 0);
    assert_eq!(text_of(&app), "已载入路由 d/router.yaml (2 个配置，0 个无效)");
    assert_eq!(kind_of(&app), MsgKind::Success);
    assert!(w.written.is_empty(), "nothing to mark");
}

#[test]
fn load_router_path_writes_invalid_markers() {
    let mut w = World::new();
    w.put("d/good.json", order("A"));
    w.texts.insert("d/router.yaml".into(), "config:\n  - good.json\n  - missing.json\n".into());
    let mut app = test_app();
    load_table(&mut app, &mut w, "d/router.yaml");
    assert_eq!(app.router_files.len(), 2);
    assert!(app.router_files[0].valid);
    assert!(!app.router_files[1].valid, "missing file should be marked invalid");
    assert_eq!(app.router_index, 0);
    let text = &w.texts["d/router.yaml"];
    assert!(text.contains("# [无效]"), "should write an invalid marker: {text}");
    assert!(text.contains("missing.json"), "marker should point at the missing file: {text}");
    assert_eq!(
        text,
        "config:\n  - good.json\n# [无效] missing.json: 文件不存在\n  - missing.json\n"
    );
    assert_eq!(kind_of(&app), MsgKind::Info);
    // Loading it once more leaves the file as it is.
    let before = text.clone();
    load_table(&mut app, &mut w, "d/router.yaml");
    assert_eq!(w.texts["d/router.yaml"], before);
}

#[test]
fn an_absolute_name_is_its_own_path() {
    let mut w = World::new();
    w.put("/c/one.json", order("A"));
    w.put("d/two.json", order("B"));
    w.texts.insert("d/t.yaml".into(), "config: [/c/one.json, two.json]".into());
    let mut app = test_app();
    load_table(&mut app, &mut w, "d/t.yaml");
    assert_eq!(app.router_files[0].path, "/c/one.json");
    assert_eq!(app.router_files[1].path, "d/two.json");
    assert!(app.router_files[0].valid && app.router_files[1].valid);
    assert_eq!(app.config_source.as_deref(), Some("/c/one.json"));
    assert_eq!(entry_path(true, "/a", "b/a"), "/a");
    assert_eq!(entry_path(false, "a", "b/a"), "b/a");
}

#[test]
fn markers_follow_the_language() {
    let mut w = World::new();
    w.texts.insert("t.yaml".into(), "config:\n- gone.json\n".into());
    let mut app = App::new(LangState::new());
    load_table(&mut app, &mut w, "t.yaml");
    assert_eq!(
        w.texts["t.yaml"],
        "config:\n# [invalid] gone.json: File does not exist\n- gone.json\n"
    );
    // In the other language the marker is replaced, not doubled.
    let mut app = test_app();
    load_table(&mut app, &mut w, "t.yaml");
    assert_eq!(w.texts["t.yaml"], "config:\n# [无效] gone.json: 文件不存在\n- gone.json\n");
}

#[test]
fn load_router_path_spec_error_keeps_old_router() {
    let mut w = World::new();
    w.texts.insert("d/router.yaml".into(), "config: a.json\nconfig: b.json\n".into());
    let mut app = test_app();
    app.router_files = vec![entry("old.json")];
    app.router_path = Some("old.yaml".to_string());
    load_table(&mut app, &mut w, "d/router.yaml");
    let err = text_of(&app);
    assert!(err.contains("重复"), "error should state the reason: {err}");
    assert_eq!(err, "载入路由失败: 路由文件语法/规范错误: 第 2 行: 出现重复的 config 键");
    assert_eq!(app.router_files.len(), 1, "spec error must not modify the old router");
    assert_eq!(app.router_path.as_deref(), Some("old.yaml"));
}

#[test]
fn a_table_that_cannot_be_read_or_written_is_refused() {
    let mut w = World::new();
    let mut app = test_app();
    load_table(&mut app, &mut w, "gone.yaml");
    assert_eq!(text_of(&app), "载入路由失败: 读取路由文件失败: No such file");
    w.failing = true;
    w.texts.insert("t.yaml".into(), "config: missing.json".into());
    load_table(&mut app, &mut w, "t.yaml");
    assert_eq!(text_of(&app), "载入路由失败: 写入无效标记注释失败: disk full");
    assert!(app.router_files.is_empty());
    assert_eq!(app.router_path, None);
}

#[test]
fn a_table_without_a_usable_entry_is_loaded() {
    let mut w = World::new();
    w.put("bad.json", order("X"));
    w.texts.insert("t.yaml".into(), "config: [bad.json, gone.json]".into());
    let mut app = test_app();
    load_table(&mut app, &mut w, "t.yaml");
    assert_eq!(app.router_files.len(), 2);
    assert_eq!(app.cfg.execution_order, "ABC");
    assert_eq!(text_of(&app), "已载入路由 t.yaml (2 个配置，2 个无效)");
    assert_eq!(app.router_files[0].error, "execution_order 含非法字符 X，只允许 A/B/C");
    // Both entries of the line are marked, and stay so when it is loaded again.
    let marked = [
        "# [无效] bad.json: execution_order 含非法字符 X，只允许 A/B/C",
        "# [无效] gone.json: 文件不存在",
        "config: [bad.json, gone.json]",
    ]
    .join("\n");
    assert_eq!(w.texts["t.yaml"], marked);
    load_table(&mut app, &mut w, "t.yaml");
    assert_eq!(w.texts["t.yaml"], marked);
}

#[test]
fn restore_with_state_restores_router_and_config() {
    let mut w = World::new();
    w.put("d/one.json", order("A"));
    w.put("d/two.json", order("B"));
    w.texts.insert("d/router.yaml".into(), "config:\n  - one.json\n  - two.json\n".into());
    let mut app = test_app();
    let state = SessionState {
        last_config: Some("d/two.json".to_string()),
        last_router: Some("d/router.yaml".to_string()),
        router_index: 0,
        language: None,
    };
    app.restore_session(Some(state), None);
    w.drive(&mut app);
    assert_eq!(app.router_files.len(), 2, "router should auto-reload");
    assert_eq!(app.config_source.as_deref(), Some("d/two.json"), "should restore the last config");
    assert_eq!(app.cfg.execution_order, "B");
    assert_eq!(app.router_index, 1, "highlight should align to the restored config");
    assert_eq!(app.shared.execution_order, "B");
    assert_eq!(app.watched.as_deref(), Some("d/two.json"));
}

#[test]
fn restore_with_state_falls_back_when_config_missing() {
    let mut w = World::new();
    w.put("d/one.json", order("A"));
    w.texts.insert("d/router.yaml".into(), "config:\n  - one.json\n".into());
    let mut app = test_app();
    let state = SessionState {
        last_config: Some("d/gone.json".to_string()),
        last_router: Some("d/router.yaml".to_string()),
        router_index: 0,
        language: None,
    };
    app.restore_session(Some(state), None);
    w.drive(&mut app);
    assert_eq!(app.config_source.as_deref(), Some("d/one.json"));
    assert_eq!(app.router_index, 0);
    assert_eq!(app.cfg.execution_order, "A");
}

#[test]
fn restore_session_reads_state_file() {
    let mut w = World::new();
    w.put("d/one.json", order("A"));
    w.texts.insert("d/router.yaml".into(), "config:\n  - one.json\n".into());
    let mut app = test_app();
    let state = SessionState {
        last_config: Some("d/one.json".to_string()),
        last_router: Some("d/router.yaml".to_string()),
        router_index: 0,
        language: None,
    };
    app.restore_session(Some(state), None);
    w.drive(&mut app);
    assert_eq!(app.router_files.len(), 1, "startup should auto-reload the router");
    assert_eq!(app.config_source.as_deref(), Some("d/one.json"));
    let saved = w.sessions.last().unwrap();
    assert_eq!(saved.last_config.as_deref(), Some("d/one.json"));
    assert_eq!(saved.last_router.as_deref(), Some("d/router.yaml"));
}

#[test]
fn the_first_launch_generates_a_default_file() {
    let mut w = World::new();
    let mut app = App::new(LangState::new());
    app.restore_session(None, None);
    w.drive(&mut app);
    assert_eq!(w.saved[0].0, "zwtcfg.json");
    assert_eq!(w.saved[0].1.execution_order, "ABC");
    assert_eq!(app.config_source.as_deref(), Some("zwtcfg.json"));
    assert_eq!(text_of(&app), "Generated default config zwtcfg.json");
    assert_eq!(app.config_mtime, Some(Mtime { secs: 9, nanos: 0 }));
    // The next launch loads it.
    let mut app = App::new(LangState::new());
    app.restore_session(None, None);
    w.drive(&mut app);
    assert_eq!(text_of(&app), "Auto-loaded zwtcfg.json");
    assert_eq!(w.saved.len(), 1);
}

#[test]
fn a_bad_default_file_is_told() {
    let mut w = World::new();
    w.put("zwtcfg.json", order(""));
    let mut app = App::new(LangState::new());
    app.restore_session(None, None);
    w.drive(&mut app);
    assert_eq!(
        text_of(&app),
        "Failed to auto-load zwtcfg.json: execution_order length must be 1~3, current: "
    );
    assert_eq!(app.config_source, None);
    assert_eq!(app.cfg.execution_order, "ABC");
    w.failing = true;
    w.configs.clear();
    let mut app = App::new(LangState::new());
    app.restore_session(None, None);
    w.drive(&mut app);
    assert_eq!(text_of(&app), "Failed to generate default config: disk full");
}

#[test]
fn the_keys_are_explained_where_there_is_nothing_to_tell() {
    let mut w = World::new();
    w.put("a.json", order("A"));
    let mut app = App::new(LangState::new());
    let state = SessionState {
        last_config: Some("a.json".to_string()),
        last_router: None,
        router_index: 0,
        language: Some(Lang::Zh),
    };
    app.restore_session(Some(state), None);
    w.drive(&mut app);
    assert_eq!(
        text_of(&app),
        "Tab 切换项目, Enter 编辑/确认, 执行热键 启动/停止操作, Esc 退出"
    );
    assert_eq!(app.language(), Lang::Zh);
}

#[test]
fn an_imposed_language_wins_over_the_session() {
    let mut w = World::new();
    let mut app = App::new(LangState::new());
    let state = SessionState {
        last_config: None,
        last_router: Some("gone.yaml".to_string()),
        router_index: 7,
        language: Some(Lang::Zh),
    };
    app.restore_session(Some(state), Some(Lang::En));
    w.drive(&mut app);
    assert_eq!(app.language(), Lang::En);
    assert_eq!(app.router_index, 0);
}

#[test]
fn the_recorded_position_is_kept_where_it_can_be_used() {
    let mut w = World::new();
    w.put("a.json", order("A"));
    w.put("b.json", order("B"));
    w.put("other.json", order("C"));
    w.texts.insert("t.yaml".into(), "config: [gone.json, a.json, b.json]".into());
    let mut state = SessionState {
        last_config: Some("other.json".to_string()),
        last_router: Some("t.yaml".to_string()),
        router_index: 2,
        language: None,
    };
    let mut app = test_app();
    app.restore_session(Some(state.clone()), None);
    w.drive(&mut app);
    assert_eq!(app.router_index, 2);
    state.router_index = 0;
    let mut app = test_app();
    app.restore_session(Some(state.clone()), None);
    w.drive(&mut app);
    assert_eq!(app.router_index, 1, "the recorded entry cannot be used");
    state.last_config = Some("B.JSON".to_string());
    w.put("B.JSON", order("B"));
    let mut app = test_app();
    app.restore_session(Some(state), None);
    w.drive(&mut app);
    assert_eq!(app.router_index, 2, "upper and lower case do not matter");
}

#[test]
fn a_broken_table_does_not_stop_the_restore() {
    let mut w = World::new();
    w.put("a.json", order("A"));
    w.texts.insert("t.yaml".into(), "what".into());
    let mut app = App::new(LangState::new());
    let state = SessionState {
        last_config: Some("a.json".to_string()),
        last_router: Some("t.yaml".to_string()),
        router_index: 0,
        language: None,
    };
    app.restore_session(Some(state), None);
    w.drive(&mut app);
    assert_eq!(app.cfg.execution_order, "A");
    assert_eq!(
        text_of(&app),
        "Auto-restore router failed (skipped): Router file syntax/spec error: line 1: \
         unrecognized config what, expected a config file list"
    );
}

#[test]
fn switch_language_toggles_and_persists() {
    let mut w = World::new();
    let mut app = test_app();
    app.focus = A_LANG;
    assert!(app.handle_event(key(KeyCode::Enter)).is_none());
    w.drive(&mut app);
    assert_eq!(app.language(), Lang::En, "should switch to English");
    assert_eq!(w.sessions.last().unwrap().language, Some(Lang::En), "session should record English");
    assert_eq!(text_of(&app), "Language switched to English");
    app.handle_event(key(KeyCode::Enter));
    w.drive(&mut app);
    assert_eq!(app.language(), Lang::Zh, "should switch back to Chinese");
    assert_eq!(w.sessions.last().unwrap().language, Some(Lang::Zh), "session should record Chinese");
    assert_eq!(text_of(&app), "语言已切换为中文");
}

#[test]
fn a_session_that_cannot_be_saved_is_told() {
    let mut w = World::new();
    w.failing = true;
    let mut app = test_app();
    app.focus = A_LANG;
    app.handle_event(key(KeyCode::Enter));
    w.drive(&mut app);
    assert_eq!(text_of(&app), "Failed to save session state: disk full");
}

#[test]
fn a_chosen_file_is_loaded_or_refused() {
    let mut w = World::new();
    w.put("c.json", order("C"));
    let mut app = App::new(LangState::new());
    app.open_dialog(DialogKind::Load);
    w.picked = Some("c.json".to_string());
    w.drive(&mut app);
    assert_eq!(app.cfg.execution_order, "C");
    assert_eq!(app.config_source.as_deref(), Some("c.json"));
    assert_eq!(text_of(&app), "Loaded c.json (current behavior is based on this config)");
    app.open_dialog(DialogKind::Load);
    w.picked = Some("gone.json".to_string());
    w.drive(&mut app);
    assert_eq!(text_of(&app), "Load failed: No such file");
    assert_eq!(app.config_source.as_deref(), Some("c.json"));
    assert!(w.saved.is_empty(), "loading never writes");
    app.open_dialog(DialogKind::Load);
    w.picked = None;
    w.drive(&mut app);
    assert_eq!(text_of(&app), "Load cancelled");
}

#[test]
fn an_export_writes_the_configuration() {
    let mut w = World::new();
    let mut app = App::new(LangState::new());
    app.focus = A_EXPORT;
    assert_eq!(app.handle_event(key(KeyCode::Enter)), Some(DialogKind::Export));
    app.open_dialog(DialogKind::Export);
    w.picked = Some("out.json".to_string());
    w.drive(&mut app);
    assert_eq!(w.saved[0].0, "out.json");
    assert_eq!(text_of(&app), "Exported to out.json");
    assert_eq!(app.config_source, None, "an export is no change of the source");
    w.failing = true;
    app.open_dialog(DialogKind::Export);
    w.drive(&mut app);
    assert_eq!(text_of(&app), "Export failed: disk full");
    app.open_dialog(DialogKind::Export);
    w.picked = None;
    w.drive(&mut app);
    assert_eq!(text_of(&app), "Export cancelled");
    app.open_dialog(DialogKind::Router);
    w.drive(&mut app);
    assert_eq!(text_of(&app), "Router load cancelled");
    app.focus = A_ROUTER;
    assert_eq!(app.handle_event(key(KeyCode::Enter)), Some(DialogKind::Router));
}

#[test]
fn dialogs_have_titles_and_names() {
    assert_eq!(dialog_title(Lang::En, DialogKind::Export), "Export Config");
    assert_eq!(dialog_title(Lang::Zh, DialogKind::Router), "载入路由配置");
    assert_eq!(default_export_name(None), "zwtcfg.json");
    assert_eq!(default_export_name(Some("x.json".to_string())), "x.json");
    assert_eq!(validate_router_entry(Lang::En, true, Ok(Config::default())), "");
    assert_eq!(
        validate_router_entry(Lang::En, false, Err(String::new())),
        "File does not exist"
    );
}

#[test]
fn a_reply_to_another_request_is_ignored() {
    let mut app = test_app();
    app.open_dialog(DialogKind::Load);
    app.resume(Reply::Found(true));
    assert!(matches!(app.request(), Some(Request::Pick { kind: DialogKind::Load, .. })));
    app.task = Task::TableRead { table: "t".to_string(), caller: Caller::Dialog };
    app.resume(Reply::Done(Ok(())));
    assert!(matches!(app.request(), Some(Request::ReadText { .. })));
}

#[test]
fn a_binding_is_captured() {
    let mut w = World::new();
    let mut app = App::new(LangState::new());
    app.focus = F_WEAPON1;
    app.handle_event(key(KeyCode::Enter));
    assert!(app.is_interacting());
    // Keys of the terminal do not count, those of the listener do.
    app.handle_event(key(KeyCode::Esc));
    assert!(app.is_interacting());
    app.handle_message(EngineMsg::CaptureKey(Key::Num3));
    assert_eq!(text_of(&app), "Bind failed: 3 already used by Weapon Slot #2");
    assert!(app.is_interacting());
    app.handle_message(EngineMsg::CaptureKey(Key::Alt));
    assert_eq!(text_of(&app), "Bind failed: LALT already used by Execution Hotkey");
    app.handle_message(EngineMsg::CaptureKey(Key::F6));
    w.drive(&mut app);
    assert_eq!(app.cfg.weapon_slot1, "F6");
    assert_eq!(app.shared.weapon_slot1, "F6");
    assert_eq!(text_of(&app), "Key bound");
    assert!(!app.is_interacting());
}

#[test]
fn a_capture_takes_the_mouse_and_can_be_cancelled() {
    let mut w = World::new();
    let mut app = App::new(LangState::new());
    app.focus = F_EXEC_KEY;
    app.handle_event(key(KeyCode::Enter));
    app.handle_event(Event::MouseDown(Button::Middle));
    w.drive(&mut app);
    assert_eq!(app.cfg.execution_hotkey, "MB3");
    app.handle_event(key(KeyCode::Enter));
    app.handle_message(EngineMsg::CaptureKey(Key::Other(250)));
    assert!(app.is_interacting(), "a key without a name is ignored");
    app.handle_message(EngineMsg::CaptureKey(Key::Escape));
    assert!(!app.is_interacting());
    assert!(app.status.is_none());
    assert!(app.request().is_none());
}

fn typed(app: &mut App, digits: &str) {
    for c in digits.chars() {
        app.handle_event(key(KeyCode::Char(c)));
    }
}

#[test]
fn a_number_is_edited() {
    let mut w = World::new();
    let mut app = App::new(LangState::new());
    app.focus = F_SHOOT;
    app.handle_event(key(KeyCode::Enter));
    assert!(matches!(&app.mode, Mode::Edit { buf, .. } if buf == "50"));
    app.handle_event(key(KeyCode::Backspace));
    typed(&mut app, "x7");
    app.handle_event(Event::Key { code: KeyCode::Char('9'), press: false });
    app.handle_event(key(KeyCode::Enter));
    w.drive(&mut app);
    assert_eq!(app.cfg.shoot_interval_ms, 57);
    assert_eq!(text_of(&app), "Value updated");
    app.handle_event(key(KeyCode::Enter));
    typed(&mut app, "1");
    app.handle_event(key(KeyCode::Esc));
    assert_eq!(app.cfg.shoot_interval_ms, 57);
    assert!(app.request().is_none());
}

#[test]
fn a_zero_interval_is_refused() {
    let mut w = World::new();
    let mut app = App::new(LangState::new());
    app.focus = F_SWITCH;
    app.handle_event(key(KeyCode::Enter));
    for _ in 0..5 {
        app.handle_event(key(KeyCode::Backspace));
    }
    app.handle_event(key(KeyCode::Enter));
    assert_eq!(text_of(&app), "Interval cannot be 0; enter a positive integer (ms)");
    assert!(matches!(&app.mode, Mode::Edit { buf, .. } if buf.is_empty()));
    typed(&mut app, "99999999999999999999");
    app.handle_event(key(KeyCode::Enter));
    assert_eq!(kind_of(&app), MsgKind::Failure, "what is out of range counts as zero");
    app.handle_event(key(KeyCode::Esc));
    app.focus = F_SWITCH_OFF;
    app.handle_event(key(KeyCode::Enter));
    app.handle_event(key(KeyCode::Backspace));
    app.handle_event(key(KeyCode::Backspace));
    app.handle_event(key(KeyCode::Enter));
    w.drive(&mut app);
    assert_eq!(app.cfg.weapon_switch_interval_offset_ms, 0);
    assert_eq!(app.cfg.weapon_switch_interval_ms, 100);
}

#[test]
fn the_execution_order_is_edited() {
    let mut w = World::new();
    let mut app = App::new(LangState::new());
    app.focus = F_ORDER;
    app.handle_event(key(KeyCode::Enter));
    app.handle_message(EngineMsg::CaptureKey(Key::KeyA));
    assert_eq!(
        text_of(&app),
        "Invalid execution order: pick 1~3 from A/B/C, each at most once (e.g. A, AB, ABC)"
    );
    for _ in 0..3 {
        app.handle_message(EngineMsg::CaptureKey(Key::Backspace));
    }
    app.handle_message(EngineMsg::CaptureKey(Key::Return));
    assert_eq!(kind_of(&app), MsgKind::Failure, "an empty order is refused");
    app.handle_message(EngineMsg::CaptureKey(Key::KeyC));
    assert!(app.status.is_none());
    app.handle_message(EngineMsg::CaptureKey(Key::KeyX));
    app.handle_message(EngineMsg::CaptureKey(Key::KeyA));
    app.handle_message(EngineMsg::CaptureKey(Key::KeyC));
    assert_eq!(kind_of(&app), MsgKind::Failure, "a repeat is refused");
    app.handle_event(key(KeyCode::Enter));
    assert!(app.is_interacting(), "the keys of the terminal do not count");
    app.handle_message(EngineMsg::CaptureKey(Key::Return));
    w.drive(&mut app);
    assert_eq!(app.cfg.execution_order, "CA");
    assert_eq!(text_of(&app), "Execution order updated");
    app.handle_event(key(KeyCode::Enter));
    app.handle_message(EngineMsg::CaptureKey(Key::Escape));
    assert_eq!(app.cfg.execution_order, "CA");
    assert!(!app.is_interacting());
}

#[test]
fn switches_are_flipped() {
    let mut w = World::new();
    let mut app = App::new(LangState::new());
    app.focus = F_MODE;
    app.handle_event(key(KeyCode::Enter));
    w.drive(&mut app);
    assert_eq!(app.cfg.execution_mode, ExecutionMode::Hold);
    assert_eq!(text_of(&app), "Execution mode switched to Hold");
    app.handle_event(key(KeyCode::Enter));
    w.drive(&mut app);
    assert_eq!(text_of(&app), "Execution mode switched to Toggle");
    app.focus = F_RANDOM;
    app.handle_event(key(KeyCode::Enter));
    w.drive(&mut app);
    assert_eq!(text_of(&app), "Random order ON");
    assert!(app.shared.random_execution);
}

#[test]
fn the_focus_moves() {
    let mut app = App::new(LangState::new());
    app.handle_event(key(KeyCode::BackTab));
    assert_eq!(app.focus, A_LANG);
    app.handle_event(key(KeyCode::Tab));
    assert_eq!(app.focus, 0);
    app.handle_event(key(KeyCode::Right));
    app.handle_event(key(KeyCode::Right));
    assert_eq!(app.focus, 2);
    app.handle_event(key(KeyCode::Down));
    assert_eq!(app.focus, 4, "the row below is shorter");
    app.handle_event(key(KeyCode::Down));
    assert_eq!(app.focus, 6);
    app.handle_event(key(KeyCode::Up));
    app.handle_event(key(KeyCode::Up));
    app.handle_event(key(KeyCode::Up));
    assert_eq!(app.focus, 1);
    app.handle_event(key(KeyCode::Left));
    assert_eq!(app.focus, 0);
    assert!(!app.should_quit);
    app.handle_event(key(KeyCode::Esc));
    assert!(app.should_quit);
}

#[test]
fn the_engine_is_told_of() {
    let mut app = App::new(LangState::new());
    app.handle_message(EngineMsg::Toggled(true));
    assert_eq!(
        text_of(&app),
        "Execution started (switch to the game window to take effect)"
    );
    app.handle_message(EngineMsg::Toggled(false));
    assert_eq!(text_of(&app), "Execution stopped");
    assert_eq!(kind_of(&app), MsgKind::Info);
}

#[test]
fn a_taken_binding_changes_nothing() {
    let mut w = World::new();
    let mut app = test_app();
    app.mode = Mode::Capture { field: F_WEAPON1 };
    app.bind(F_WEAPON1, "3".to_string());
    assert_eq!(app.cfg.weapon_slot1, "2");
    assert!(matches!(app.mode, Mode::Capture { field } if field == F_WEAPON1));
    assert!(app.request().is_none());
    assert_eq!(text_of(&app), "绑定失败: 3 已被 武器槽#2 使用");
    assert_eq!(kind_of(&app), MsgKind::Failure);
    app.bind(F_WEAPON1, "F6".to_string());
    assert!(matches!(app.mode, Mode::Normal));
    w.drive(&mut app);
    let mut expected = Config::default();
    expected.weapon_slot1 = "F6".to_string();
    assert_eq!(w.saved[0].0, "zwtcfg.json");
    assert_eq!(w.saved[0].1.weapon_slot1, expected.weapon_slot1);
    assert_eq!(w.saved[0].1.weapon_slot2, expected.weapon_slot2);
    assert_eq!(app.shared.weapon_slot1, "F6");
}

#[test]
fn the_order_editor_takes_each_letter_once() {
    let mut app = test_app();
    app.order_edit_key(F_ORDER, Key::KeyA);
    assert!(matches!(app.mode, Mode::Normal), "nothing is edited");
    app.mode = Mode::OrderEdit { field: F_ORDER, buf: String::new() };
    app.order_edit_key(F_ORDER, Key::Return);
    assert_eq!(kind_of(&app), MsgKind::Failure);
    assert!(matches!(&app.mode, Mode::OrderEdit { buf, .. } if buf.is_empty()));
    for k in [Key::KeyB, Key::KeyA, Key::KeyB, Key::KeyX] {
        app.order_edit_key(F_ORDER, k);
    }
    assert!(matches!(&app.mode, Mode::OrderEdit { buf, .. } if buf == "BA"));
    assert_eq!(app.cfg.execution_order, "ABC");
    app.order_edit_key(F_ORDER, Key::Return);
    assert_eq!(app.cfg.execution_order, "BA");
    assert!(matches!(app.mode, Mode::Normal));
    assert!(matches!(app.request(), Some(Request::SaveConfig { .. })));
}
