use zombies_weapon_tool::lang::Lang;
use zombies_weapon_tool::session::{
    serialization_error, state_file_name, state_home, SessionState,
};
use zombies_weapon_tool::watcher::{decide, look, Mtime, Snapshot};

fn at(secs: i64) -> Option<Mtime> {
    Some(Mtime { secs, nanos: 0 })
}

fn snap(p: &str, t: Option<i64>) -> Option<Snapshot> {
    Some(Snapshot { path: p.to_string(), mtime: t.map(|secs| Mtime { secs, nanos: 0 }) })
}

fn same(a: &Option<Snapshot>, b: &Option<Snapshot>) -> bool {
    match (a, b) {
        (Some(x), Some(y)) => x.path == y.path && x.mtime == y.mtime,
        (None, None) => true,
        _ => false,
    }
}

#[test]
fn first_path_resets_without_notify() {
    let (s, n) = decide(&None, Some("a.json".to_string()), at(0));
    assert!(same(&s, &snap("a.json", Some(0))));
    assert!(!n);
}

#[test]
fn no_path_clears_snapshot() {
    let (s, n) = decide(&snap("a.json", Some(1)), None, None);
    assert!(same(&s, &None));
    assert!(!n);
}

#[test]
fn same_path_unchanged_no_notify() {
    let (s, n) = decide(&snap("a.json", Some(1)), Some("a.json".to_string()), at(1));
    assert!(same(&s, &snap("a.json", Some(1))));
    assert!(!n);
}

#[test]
fn same_path_changed_notifies() {
    let (s, n) = decide(&snap("a.json", Some(1)), Some("a.json".to_string()), at(2));
    assert!(same(&s, &snap("a.json", Some(2))));
    assert!(n);
}

#[test]
fn path_switched_resets_without_notify() {
    let (s, n) = decide(&snap("a.json", Some(1)), Some("b.json".to_string()), at(1));
    assert!(same(&s, &snap("b.json", Some(1))));
    assert!(!n);
}

#[test]
fn file_deleted_notifies() {
    let (s, n) = decide(&snap("a.json", Some(1)), Some("a.json".to_string()), None);
    assert!(same(&s, &snap("a.json", None)));
    assert!(n);
}

#[test]
fn a_change_is_told_once() {
    let (s, n) = decide(&snap("a.json", Some(1)), Some("a.json".to_string()), at(2));
    assert!(n);
    let (_, n) = decide(&s, Some("a.json".to_string()), at(2));
    assert!(!n);
}

#[test]
fn paths_are_compared_by_their_components() {
    let told = |old: &str, new: &str| {
        let (s, n) = decide(&snap(old, Some(1)), Some(new.to_string()), at(2));
        assert!(same(&s, &snap(new, Some(2))));
        n
    };
    assert!(told("a//b", "a/b"));
    assert!(told("a/./b/", "a/b"));
    assert!(told("/a", "/./a"));
    assert!(!told("./a", "a"));
    assert!(!told("/a", "a"));
    assert!(!told("a/../b", "b"));
    assert!(!told("A", "a"));
    let (s, n) = look(&snap("a", Some(1)), true, Some("b".to_string()), at(2));
    assert!(same(&s, &snap("b", Some(2))) && n);
    assert!(!look(&snap("a", Some(1)), false, Some("a".to_string()), at(2)).1);
    assert!(!look(&snap("a", Some(1)), true, Some("a".to_string()), at(1)).1);
}

#[test]
fn defaults_are_empty_and_safe() {
    let st = SessionState::default();
    assert_eq!(st.last_config, None);
    assert_eq!(st.last_router, None);
    assert_eq!(st.router_index, 0);
}

#[test]
fn the_session_file_is_in_the_profile() {
    let p = || Some("C:/Users/x".to_string());
    let h = || Some("/home/x".to_string());
    assert_eq!(state_home(p(), h()), "C:/Users/x");
    assert_eq!(state_home(None, h()), "/home/x");
    assert_eq!(state_home(None, None), ".");
    assert_eq!(state_file_name(), ".zwt");
    assert_eq!(serialization_error(Lang::Zh, "x"), "序列化会话状态失败: x");
}

#[test]
fn a_session_state_is_copied_whole() {
    let st = SessionState {
        last_config: Some("D:\\game\\configs\\second.json".into()),
        last_router: Some("D:\\game\\zwtcfg_router.yaml".into()),
        router_index: 2,
        language: Some(Lang::En),
    };
    let copy = st.clone();
    assert_eq!(copy.last_config, st.last_config);
    assert_eq!(copy.last_router, st.last_router);
    assert_eq!(copy.router_index, 2);
    assert_eq!(copy.language, Some(Lang::En));
}
