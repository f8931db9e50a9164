use zombies_weapon_tool::config::ExecutionMode;
use zombies_weapon_tool::edit::{Event, KeyCode};
use zombies_weapon_tool::fields::{F_MODE, F_ORDER, F_SWITCH_OFF, F_WEAPON2};
use zombies_weapon_tool::lang::{Lang, LangState};
use zombies_weapon_tool::screen::{top_bar_text, Color, Panel};
use zombies_weapon_tool::state::{App, RouterEntry};

fn test_app() -> App {
    App::new(LangState { global: Lang::En, local: Some(Lang::Zh) })
}

fn entry(name: &str) -> RouterEntry {
    RouterEntry { path: name.to_string(), valid: true, error: String::new() }
}

/// The last part of a path.
fn file_name(path: &str) -> Option<String> {
    path.rsplit('/').next().map(|s| s.to_string())
}

fn draw(app: &App, running: bool) -> Vec<Panel> {
    let source = app.config_source.as_ref().and_then(|p| file_name(p));
    let names: Vec<Option<String>> =
        app.router_files.iter().map(|e| file_name(&e.path)).collect();
    app.ui(running, source, &names)
}

/// The rows of the screen, with the rows of the borders.
fn rows(panels: &[Panel]) -> Vec<String> {
    let mut out = Vec::new();
    for p in panels {
        if p.bordered {
            out.push(format!("┌{}", p.title.clone().unwrap_or_default()));
        }
        for line in &p.lines {
            let text: String = line.spans.iter().map(|s| s.text.as_str()).collect();
            out.push(if p.bordered { format!("│{text}") } else { text });
        }
        if p.bordered {
            out.push("└".to_string());
        }
    }
    out
}

fn screen_text(app: &App) -> String {
    rows(&draw(app, false)).join("\n")
}

#[test]
fn renders_full_ui_with_annotations() {
    let app = test_app();
    let text = screen_text(&app);
    assert!(text.contains(top_bar_text()), "open-source repo URL not rendered");
    assert!(!text.contains('▄'), "Creeper not removed");
    assert!(text.contains("武器槽#1绑定"), "config area not rendered");
}

#[test]
fn status_line_shows_config_and_router() {
    let mut app = test_app();
    app.config_source = Some("zwtcfg.json".to_string());
    app.watched = app.config_source.clone();
    let text = screen_text(&app);
    assert!(
        text.contains("○ 已停止 | 配置文件: zwtcfg.json"),
        "single config not shown: {text}"
    );
    app.router_files = vec![entry("first.json"), entry("second.json"), entry("third.json")];
    app.router_index = 1;
    let text = screen_text(&app);
    assert!(text.contains("路由"), "路由标识未显示: {text}");
    assert!(
        text.contains("first.json") && text.contains("second.json") && text.contains("third.json"),
        "路由列表不完整: {text}"
    );
    assert!(text.contains("○ 已停止 | 路由: first.json | second.json | third.json"));
}

#[test]
fn router_field_and_action_render() {
    let mut app = test_app();
    let text = screen_text(&app);
    assert!(text.contains("速切配置热键: RALT"), "quick-switch default not rendered: {text}");
    assert!(text.contains("载入路由"), "load-router action not rendered: {text}");
    app.cfg.router_hotkey = "G".into();
    app.shared = app.cfg.clone();
    let text = screen_text(&app);
    assert!(text.contains("速切配置热键: G"), "binding not rendered: {text}");
}

#[test]
fn router_invalid_entry_renders_red() {
    let mut app = test_app();
    app.router_files = vec![
        entry("ok.json"),
        RouterEntry {
            path: "bad.json".to_string(),
            valid: false,
            error: "文件不存在".to_string(),
        },
    ];
    app.router_index = 0;
    let panels = draw(&app, false);
    let spans = &panels[5].lines[1].spans;
    let bad = spans.iter().find(|s| s.text == "bad.json").unwrap();
    assert_eq!(bad.style.fg, Some(Color::Red), "invalid entry should render red");
    let ok = spans.iter().find(|s| s.text == "ok.json").unwrap();
    assert_eq!(ok.style.fg, Some(Color::Green));
    assert!(ok.style.bold);
}

#[test]
fn execution_mode_field_renders_with_hint() {
    let mut app = test_app();
    app.focus = F_MODE;
    let text = screen_text(&app);
    assert!(text.contains("执行方式: 切换"), "default mode not rendered: {text}");
    assert!(text.contains("切换模式"), "toggle hint not rendered: {text}");
    app.cfg.execution_mode = ExecutionMode::Hold;
    app.shared = app.cfg.clone();
    let text = screen_text(&app);
    assert!(text.contains("执行方式: 长按"), "hold not rendered: {text}");
    assert!(text.contains("长按模式"), "hold hint not rendered: {text}");
}

#[test]
fn banner_art_unified() {
    let app = test_app();
    let all = rows(&draw(&app, false));
    let art_row = all[1].trim_start_matches('│');
    assert!(
        art_row.contains("_____") && art_row.contains("_____           _"),
        "banner art line wrong: {:?}",
        art_row
    );
}

#[test]
fn language_action_renders_cross_lang_label() {
    let mut app = test_app();
    let text = screen_text(&app);
    assert!(
        text.contains("[ Switch Language ]"),
        "Chinese UI should show the English target: {text}"
    );
    Lang::En.test_set(&mut app.lang);
    let text = screen_text(&app);
    assert!(text.contains("[ 语言切换 ]"), "English UI should show the Chinese target: {text}");
}

#[test]
fn the_layout_of_the_screen() {
    let app = App::new(LangState::new());
    let panels = draw(&app, true);
    let sizes: Vec<(u16, bool, bool)> =
        panels.iter().map(|p| (p.rows, p.fills, p.bordered)).collect();
    assert_eq!(
        sizes,
        vec![
            (9, false, true),
            (5, false, true),
            (5, false, true),
            (6, false, true),
            (3, false, true),
            (3, true, false),
        ]
    );
    let titles: Vec<Option<&str>> = panels.iter().map(|p| p.title.as_deref()).collect();
    assert_eq!(
        titles,
        vec![
            None,
            Some(" Key Bindings "),
            Some(" Execution Order "),
            Some(" Timing Config (ms) "),
            Some(" Operations "),
            None,
        ]
    );
    assert_eq!(
        rows(&panels[1..2])[1],
        "│Weapon Slot #1: 2    Weapon Slot #2: 3    Weapon Slot #3: 4"
    );
    assert_eq!(rows(&panels[5..6])[1], "● Executing | Config: default config");
    assert_eq!(panels[5].lines[1].spans[0].style.fg, Some(Color::Green));
    assert_eq!(panels[0].lines.len(), 7);
    assert_eq!(panels[0].lines[0].style.fg, Some(Color::Green));
    assert_eq!(panels[0].lines[5].style.fg, Some(Color::Blue));
}

#[test]
fn the_active_field_is_highlighted() {
    let mut app = App::new(LangState::new());
    app.focus = F_WEAPON2;
    let span = app.field_span(F_WEAPON2);
    assert_eq!(span.style.bg, Some(Color::Blue));
    assert_eq!(span.style.fg, Some(Color::White));
    assert!(app.is_active(F_WEAPON2) && !app.is_capture(F_WEAPON2));
    app.cfg.weapon_slot2 = String::new();
    app.shared = app.cfg.clone();
    assert_eq!(app.field_span(F_WEAPON2).text, "Weapon Slot #2: Unbound");
    app.handle_event(Event::Key { code: KeyCode::Enter, press: true });
    assert!(app.is_capture(F_WEAPON2));
    assert_eq!(
        app.field_span(F_WEAPON2).text,
        "Weapon Slot #2: Press a key or mouse button..."
    );
}

#[test]
fn what_is_entered_is_shown_with_a_cursor() {
    let mut app = App::new(LangState::new());
    assert_eq!(app.field_span(F_SWITCH_OFF).text, "Switch Weapon Jitter (ms): ±20");
    app.focus = F_SWITCH_OFF;
    app.handle_event(Event::Key { code: KeyCode::Enter, press: true });
    assert_eq!(app.field_span(F_SWITCH_OFF).text, "Switch Weapon Jitter (ms): ±20▌");
    app.handle_event(Event::Key { code: KeyCode::Esc, press: true });
    app.focus = F_ORDER;
    app.handle_event(Event::Key { code: KeyCode::Enter, press: true });
    assert_eq!(app.field_span(F_ORDER).text, "Execution Set: ABC▌");
    let notes = rows(&draw(&app, false)).join("\n");
    assert!(notes.contains("[!] Sequential mode cycles the selected set elements left-to-right"));
}

#[test]
fn an_entry_without_a_file_name_shows_its_path() {
    let mut app = App::new(LangState::new());
    app.router_files = vec![entry("..")];
    let panels = app.ui(false, None, &vec![None]);
    assert_eq!(rows(&panels[5..6])[1], "○ Stopped | Router: ..");
}
