use zombies_weapon_tool::lang::{fmt, init, parse_cli_lang, parse_lang, tr, Lang, LangState};

fn args(list: &[&str]) -> Vec<String> {
    list.iter().map(|s| s.to_string()).collect()
}

#[test]
fn defaults_to_english() {
    let mut st = LangState::new();
    Lang::test_clear(&mut st);
    assert_eq!(Lang::get(&st), Lang::En);
}

#[test]
fn tr_switches_with_lang() {
    let mut st = LangState::new();
    Lang::Zh.test_set(&mut st);
    assert_eq!(tr(Lang::get(&st), "已导出", "Exported"), "已导出");
    Lang::En.test_set(&mut st);
    assert_eq!(tr(Lang::get(&st), "已导出", "Exported"), "Exported");
    Lang::test_clear(&mut st);
}

#[test]
fn switch_button_shows_target_language() {
    let mut st = LangState::new();
    Lang::Zh.test_set(&mut st);
    assert_eq!(tr(Lang::get(&st), "Switch Language", "语言切换"), "Switch Language");
    Lang::En.test_set(&mut st);
    assert_eq!(tr(Lang::get(&st), "Switch Language", "语言切换"), "语言切换");
    Lang::test_clear(&mut st);
}

#[test]
fn toggle_flips_language() {
    let mut st = LangState::new();
    Lang::En.test_set(&mut st);
    assert_eq!(Lang::toggle(&mut st), Lang::Zh);
    assert_eq!(Lang::get(&st), Lang::Zh);
    assert_eq!(Lang::toggle(&mut st), Lang::En);
    Lang::test_clear(&mut st);
}

#[test]
fn parse_lang_variants() {
    assert_eq!(parse_lang("zh"), Some(Lang::Zh));
    assert_eq!(parse_lang("ZH-CN"), Some(Lang::Zh));
    assert_eq!(parse_lang("en"), Some(Lang::En));
    assert_eq!(parse_lang("EN_us"), Some(Lang::En));
    assert_eq!(parse_lang("fr"), None);
}

#[test]
fn formatted_tr_template() {
    let mut st = LangState::new();
    Lang::En.test_set(&mut st);
    let s = fmt(Lang::get(&st), "已导出到 {}", "Exported to {}", &["/tmp/x.json".to_string()]);
    assert_eq!(s, "Exported to /tmp/x.json");
    Lang::test_clear(&mut st);
}

#[test]
fn placeholders_without_an_argument_stay() {
    assert_eq!(fmt(Lang::En, "{}", "{} and {}", &args(&["a"])), "a and {}");
    assert_eq!(fmt(Lang::En, "", "nothing", &args(&["a"])), "nothing");
    assert_eq!(fmt(Lang::Zh, "{}{}", "", &args(&["a", "{}"])), "a{}");
}

#[test]
fn an_override_hides_the_global_language() {
    let mut st = LangState::new();
    Lang::Zh.test_set(&mut st);
    Lang::En.set(&mut st);
    assert_eq!(Lang::get(&st), Lang::En);
    Lang::Zh.test_set(&mut st);
    Lang::test_clear(&mut st);
    assert_eq!(Lang::get(&st), Lang::En);
    assert_eq!(Lang::En.other(), Lang::Zh);
}

#[test]
fn the_command_line_asks_for_a_language() {
    assert_eq!(parse_cli_lang(&args(&["prog", "--lang", "zh"])), Some(Lang::Zh));
    assert_eq!(parse_cli_lang(&args(&["prog", "--lang=EN-us"])), Some(Lang::En));
    assert_eq!(parse_cli_lang(&args(&["prog"])), None);
    assert_eq!(parse_cli_lang(&args(&["prog", "--lang"])), None);
}

#[test]
fn an_imposed_language_is_in_force() {
    let mut st = LangState::new();
    assert_eq!(init(Some("zh".to_string()), &args(&["prog"]), &mut st), Some(Lang::Zh));
    assert_eq!(Lang::get(&st), Lang::Zh);
    let mut st = LangState::new();
    assert_eq!(init(None, &args(&["prog"]), &mut st), None);
    assert_eq!(Lang::get(&st), Lang::En);
}
