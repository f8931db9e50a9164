use zombies_weapon_tool::lang::Lang;
use zombies_weapon_tool::router::{parse_router_yaml, rewrite_with_markers, RouterItem};

fn parse(text: &str) -> Result<Vec<RouterItem>, String> {
    parse_router_yaml(Lang::En, text)
}

fn names(items: &[RouterItem]) -> Vec<&str> {
    items.iter().map(|i| i.name.as_str()).collect()
}

#[test]
fn parses_block_list() {
    let yaml = "\
# 路由配置
config:
 - first.json
 - second.json

 - third.json
";
    let items = parse(yaml).unwrap();
    assert_eq!(names(&items), vec!["first.json", "second.json", "third.json"]);
    assert_eq!(items[0].line, 2);
    assert_eq!(items[1].line, 3);
    assert_eq!(items[2].line, 5);
}

#[test]
fn parses_inline_flow_list() {
    let items = parse("config: [a.json, b.json, c.json]").unwrap();
    assert_eq!(names(&items), vec!["a.json", "b.json", "c.json"]);
}

#[test]
fn parses_single_value() {
    let items = parse("config: only.json").unwrap();
    assert_eq!(items.len(), 1);
    assert_eq!(items[0].name, "only.json");
}

#[test]
fn strips_quotes_and_whitespace() {
    let yaml = "config:\n - \"x y.json\"\n - 'z.json'\n -  spaced.json \n";
    let items = parse(yaml).unwrap();
    assert_eq!(names(&items), vec!["x y.json", "z.json", "spaced.json"]);
}

#[test]
fn empty_or_missing_config_returns_error() {
    assert!(parse("").is_err());
    assert!(parse("# 只有注释\n").is_err());
    assert!(parse("other: 1\n").is_err());
    assert_eq!(parse("").unwrap_err(), "config file list is empty");
    assert_eq!(parse("config: []").unwrap_err(), "config file list is empty");
}

#[test]
fn rejects_unexpected_top_level_key() {
    let err = parse("foo: bar\nconfig:\n - a.json\n").unwrap_err();
    assert!(err.contains('1'), "err: {err}");
    assert_eq!(err, "line 1: unrecognized config foo: bar, expected a config file list");
}

#[test]
fn rejects_non_list_item_in_block() {
    let err = parse("config:\n - a.json\nother: 1\n").unwrap_err();
    assert!(err.contains('3'), "err: {err}");
    assert_eq!(err, "line 3: non-list item in config list other: 1");
}

#[test]
fn rejects_unclosed_flow_list() {
    assert!(parse("config: [a.json, b.json\n").is_err());
    assert_eq!(
        parse("config: [a.json, b.json\n").unwrap_err(),
        "line 1: inline list not closed (missing ])"
    );
}

#[test]
fn rejects_duplicate_config_key() {
    let err = parse("config:\n - a.json\nconfig:\n - b.json\n").unwrap_err();
    assert!(err.contains('3'), "err: {err}");
    assert_eq!(err, "line 3: duplicate config key");
}

#[test]
fn rewrite_inserts_clears_and_dedups_markers() {
    let original = "config:\n - ok.json\n - bad.json\n - ok2.json\n";
    let markers = vec![(2, "# [无效] bad.json: 文件不存在".to_string())];
    let out = rewrite_with_markers(original, &markers);
    assert_eq!(
        out,
        "config:\n - ok.json\n# [无效] bad.json: 文件不存在\n - bad.json\n - ok2.json\n"
    );
    let again = rewrite_with_markers(&out, &[(3, "# [无效] bad.json: 文件不存在".to_string())]);
    assert_eq!(again, out);
    let fixed = rewrite_with_markers(&out, &[]);
    assert_eq!(fixed, "config:\n - ok.json\n - bad.json\n - ok2.json\n");
}

#[test]
fn dashes_without_a_space() {
    let items = parse("config:\n-a.json\n--b.json\n- -c.json\n").unwrap();
    assert_eq!(names(&items), vec!["a.json", "b.json", "-c.json"]);
}

#[test]
fn a_lone_quote_is_no_quotation() {
    assert_eq!(names(&parse("config: \"").unwrap()), vec!["\""]);
    assert_eq!(names(&parse("config: \"a'").unwrap()), vec!["\"a'"]);
    assert_eq!(names(&parse("config: ['a', , \"b\"]").unwrap()), vec!["a", "b"]);
}

#[test]
fn nothing_follows_a_closed_list() {
    let err = parse("config: a.json\n - b.json\n").unwrap_err();
    assert_eq!(err, "line 2: unrecognized config - b.json, expected a config file list");
}

#[test]
fn the_faults_in_chinese() {
    assert_eq!(
        parse_router_yaml(Lang::Zh, "config: a\nconfig: b").unwrap_err(),
        "第 2 行: 出现重复的 config 键"
    );
    assert_eq!(parse_router_yaml(Lang::Zh, "# x").unwrap_err(), "config 文件列表为空");
}

#[test]
fn markers_keep_the_names() {
    let text = "config:\r\n - a.json\r\n - b.json";
    let before = parse(text).unwrap();
    let marked = rewrite_with_markers(text, &[(1, "# [无效] a.json: x".to_string())]);
    assert_eq!(marked, "config:\n# [无效] a.json: x\n - a.json\n - b.json");
    let after = parse(&marked).unwrap();
    assert_eq!(names(&before), names(&after));
    assert_eq!(after[0].line, 2);
}

#[test]
fn all_comments_for_a_line_stand_above_it() {
    let out = rewrite_with_markers(
        "config: [a.json, b.json]\n",
        &[(0, "# [无效] a.json: x".to_string()), (0, "# [无效] b.json: y".to_string())],
    );
    assert_eq!(out, "# [无效] a.json: x\n# [无效] b.json: y\nconfig: [a.json, b.json]\n");
    let again = rewrite_with_markers(
        &out,
        &[(2, "# [无效] a.json: x".to_string()), (2, "# [无效] b.json: y".to_string())],
    );
    assert_eq!(again, out);
}
