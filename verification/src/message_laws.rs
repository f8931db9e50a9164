//! What the messages say: which of them stands for what, and where the name, the
//! number or the reason goes in it.

use vstd::prelude::*;

use crate::config;
use crate::config::{ConfigView, ExecutionMode, Fault};
use crate::edit::{Event, KeyCode};
use crate::engine::EngineMsg;
use crate::fields;
use crate::flow::ReplyView;
use crate::keymap::Key;
use crate::lang;
use crate::lang::Lang;
use crate::router;
use crate::router::RouterFault;
use crate::session::SessionView;
use crate::state::{
    AppView, CallerView, DialogKind, EntryView, GoalView, ModeView, MsgKind, TaskView,
};
use crate::text;
use crate::watcher::Mtime;

verus! {

// ---------------------------------------------------------------------------
// Templates
// ---------------------------------------------------------------------------

proof fn lemma_fill_one(t: Seq<char>, p: Seq<char>, q: Seq<char>, a: Seq<char>)
    requires
        t =~= p + seq!['{', '}'] + q,
        !p.contains('{'),
        !q.contains('{'),
    ensures
        lang::fill(t, seq![a]) == p + a + q,
{
    let none = Seq::<Seq<char>>::empty();
    lang::placeholders_are_filled_in_order(p, a, q, none);
    lang::fill_nothing(q);
    assert(seq![a] + none =~= seq![a]);
}

proof fn lemma_fill_two(
    t: Seq<char>,
    p: Seq<char>,
    q: Seq<char>,
    r: Seq<char>,
    a: Seq<char>,
    b: Seq<char>,
)
    requires
        t =~= p + seq!['{', '}'] + q + seq!['{', '}'] + r,
        !p.contains('{'),
        !q.contains('{'),
        !r.contains('{'),
    ensures
        lang::fill(t, seq![a, b]) == p + a + q + b + r,
{
    let rest = q + seq!['{', '}'] + r;
    lemma_fill_one(rest, q, r, b);
    lang::placeholders_are_filled_in_order(p, a, rest, seq![b]);
    assert(t =~= p + seq!['{', '}'] + rest);
    assert(seq![a] + seq![b] =~= seq![a, b]);
    assert(p + a + (q + b + r) =~= p + a + q + b + r);
}

proof fn lemma_fill_three(
    t: Seq<char>,
    p: Seq<char>,
    q: Seq<char>,
    r: Seq<char>,
    s: Seq<char>,
    a: Seq<char>,
    b: Seq<char>,
    c: Seq<char>,
)
    requires
        t =~= p + seq!['{', '}'] + q + seq!['{', '}'] + r + seq!['{', '}'] + s,
        !p.contains('{'),
        !q.contains('{'),
        !r.contains('{'),
        !s.contains('{'),
    ensures
        lang::fill(t, seq![a, b, c]) == p + a + q + b + r + c + s,
{
    let rest = q + seq!['{', '}'] + r + seq!['{', '}'] + s;
    lemma_fill_two(rest, q, r, s, b, c);
    lang::placeholders_are_filled_in_order(p, a, rest, seq![b, c]);
    assert(t =~= p + seq!['{', '}'] + rest);
    assert(seq![a] + seq![b, c] =~= seq![a, b, c]);
    assert(p + a + (q + b + r + c + s) =~= p + a + q + b + r + c + s);
}

proof fn lemma_exported(l: Lang, a: Seq<char>)
    ensures
        lang::message(l, "已导出到 {}"@, "Exported to {}"@, seq![a]) == match l {
            Lang::Zh => "已导出到 "@ + a,
            Lang::En => "Exported to "@ + a,
        },
{
    reveal_strlit("已导出到 {}");
    reveal_strlit("已导出到 ");
    reveal_strlit("Exported to {}");
    reveal_strlit("Exported to ");
    lemma_fill_one("已导出到 {}"@, "已导出到 "@, Seq::<char>::empty(), a);
    assert("已导出到 "@ + a + Seq::<char>::empty() =~= "已导出到 "@ + a);
    lemma_fill_one("Exported to {}"@, "Exported to "@, Seq::<char>::empty(), a);
    assert("Exported to "@ + a + Seq::<char>::empty() =~= "Exported to "@ + a);
}

proof fn lemma_export_failed(l: Lang, a: Seq<char>)
    ensures
        lang::message(l, "导出失败: {}"@, "Export failed: {}"@, seq![a]) == match l {
            Lang::Zh => "导出失败: "@ + a,
            Lang::En => "Export failed: "@ + a,
        },
{
    reveal_strlit("导出失败: {}");
    reveal_strlit("导出失败: ");
    reveal_strlit("Export failed: {}");
    reveal_strlit("Export failed: ");
    lemma_fill_one("导出失败: {}"@, "导出失败: "@, Seq::<char>::empty(), a);
    assert("导出失败: "@ + a + Seq::<char>::empty() =~= "导出失败: "@ + a);
    lemma_fill_one("Export failed: {}"@, "Export failed: "@, Seq::<char>::empty(), a);
    assert("Export failed: "@ + a + Seq::<char>::empty() =~= "Export failed: "@ + a);
}

proof fn lemma_loaded(l: Lang, a: Seq<char>)
    ensures
        lang::message(
            l,
            "已读取 {} (当前行为基于该配置)"@,
            "Loaded {} (current behavior is based on this config)"@,
            seq![a],
        ) == match l {
            Lang::Zh => "已读取 "@ + a + " (当前行为基于该配置)"@,
            Lang::En => "Loaded "@ + a + " (current behavior is based on this config)"@,
        },
{
    reveal_strlit("已读取 {} (当前行为基于该配置)");
    reveal_strlit("已读取 ");
    reveal_strlit(" (当前行为基于该配置)");
    reveal_strlit("Loaded {} (current behavior is based on this config)");
    reveal_strlit("Loaded ");
    reveal_strlit(" (current behavior is based on this config)");
    lemma_fill_one("已读取 {} (当前行为基于该配置)"@, "已读取 "@, " (当前行为基于该配置)"@, a);
    lemma_fill_one(
        "Loaded {} (current behavior is based on this config)"@,
        "Loaded "@,
        " (current behavior is based on this config)"@,
        a,
    );
}

proof fn lemma_load_failed(l: Lang, a: Seq<char>)
    ensures
        lang::message(l, "读取失败: {}"@, "Load failed: {}"@, seq![a]) == match l {
            Lang::Zh => "读取失败: "@ + a,
            Lang::En => "Load failed: "@ + a,
        },
{
    reveal_strlit("读取失败: {}");
    reveal_strlit("读取失败: ");
    reveal_strlit("Load failed: {}");
    reveal_strlit("Load failed: ");
    lemma_fill_one("读取失败: {}"@, "读取失败: "@, Seq::<char>::empty(), a);
    assert("读取失败: "@ + a + Seq::<char>::empty() =~= "读取失败: "@ + a);
    lemma_fill_one("Load failed: {}"@, "Load failed: "@, Seq::<char>::empty(), a);
    assert("Load failed: "@ + a + Seq::<char>::empty() =~= "Load failed: "@ + a);
}

proof fn lemma_first_failed(l: Lang, a: Seq<char>, b: Seq<char>)
    ensures
        lang::message(
            l,
            "已载入路由但加载 #{} 失败: {}"@,
            "Router loaded but failed to load #{}: {}"@,
            seq![a, b],
        ) == match l {
            Lang::Zh => "已载入路由但加载 #"@ + a + " 失败: "@ + b,
            Lang::En => "Router loaded but failed to load #"@ + a + ": "@ + b,
        },
{
    reveal_strlit("已载入路由但加载 #{} 失败: {}");
    reveal_strlit("已载入路由但加载 #");
    reveal_strlit(" 失败: ");
    reveal_strlit("Router loaded but failed to load #{}: {}");
    reveal_strlit("Router loaded but failed to load #");
    reveal_strlit(": ");
    lemma_fill_two("已载入路由但加载 #{} 失败: {}"@, "已载入路由但加载 #"@, " 失败: "@, Seq::<char>::empty(), a, b);
    assert("已载入路由但加载 #"@ + a + " 失败: "@ + b + Seq::<char>::empty() =~= "已载入路由但加载 #"@ + a + " 失败: "@ + b);
    lemma_fill_two(
        "Router loaded but failed to load #{}: {}"@,
        "Router loaded but failed to load #"@,
        ": "@,
        Seq::<char>::empty(),
        a,
        b,
    );
    assert("Router loaded but failed to load #"@ + a + ": "@ + b + Seq::<char>::empty() =~= "Router loaded but failed to load #"@ + a + ": "@ + b);
}

proof fn lemma_unreadable(l: Lang, a: Seq<char>)
    ensures
        lang::message(
            l,
            "读取路由文件失败: {}"@,
            "Failed to read router file: {}"@,
            seq![a],
        ) == match l {
            Lang::Zh => "读取路由文件失败: "@ + a,
            Lang::En => "Failed to read router file: "@ + a,
        },
{
    reveal_strlit("读取路由文件失败: {}");
    reveal_strlit("读取路由文件失败: ");
    reveal_strlit("Failed to read router file: {}");
    reveal_strlit("Failed to read router file: ");
    lemma_fill_one("读取路由文件失败: {}"@, "读取路由文件失败: "@, Seq::<char>::empty(), a);
    assert("读取路由文件失败: "@ + a + Seq::<char>::empty() =~= "读取路由文件失败: "@ + a);
    lemma_fill_one(
        "Failed to read router file: {}"@,
        "Failed to read router file: "@,
        Seq::<char>::empty(),
        a,
    );
    assert("Failed to read router file: "@ + a + Seq::<char>::empty() =~= "Failed to read router file: "@ + a);
}

proof fn lemma_misspelt(l: Lang, a: Seq<char>)
    ensures
        lang::message(
            l,
            "路由文件语法/规范错误: {}"@,
            "Router file syntax/spec error: {}"@,
            seq![a],
        ) == match l {
            Lang::Zh => "路由文件语法/规范错误: "@ + a,
            Lang::En => "Router file syntax/spec error: "@ + a,
        },
{
    reveal_strlit("路由文件语法/规范错误: {}");
    reveal_strlit("路由文件语法/规范错误: ");
    reveal_strlit("Router file syntax/spec error: {}");
    reveal_strlit("Router file syntax/spec error: ");
    lemma_fill_one("路由文件语法/规范错误: {}"@, "路由文件语法/规范错误: "@, Seq::<char>::empty(), a);
    assert("路由文件语法/规范错误: "@ + a + Seq::<char>::empty() =~= "路由文件语法/规范错误: "@ + a);
    lemma_fill_one(
        "Router file syntax/spec error: {}"@,
        "Router file syntax/spec error: "@,
        Seq::<char>::empty(),
        a,
    );
    assert("Router file syntax/spec error: "@ + a + Seq::<char>::empty() =~= "Router file syntax/spec error: "@ + a);
}

proof fn lemma_unmarked(l: Lang, a: Seq<char>)
    ensures
        lang::message(
            l,
            "写入无效标记注释失败: {}"@,
            "Failed to write invalid marker comment: {}"@,
            seq![a],
        ) == match l {
            Lang::Zh => "写入无效标记注释失败: "@ + a,
            Lang::En => "Failed to write invalid marker comment: "@ + a,
        },
{
    reveal_strlit("写入无效标记注释失败: {}");
    reveal_strlit("写入无效标记注释失败: ");
    reveal_strlit("Failed to write invalid marker comment: {}");
    reveal_strlit("Failed to write invalid marker comment: ");
    lemma_fill_one("写入无效标记注释失败: {}"@, "写入无效标记注释失败: "@, Seq::<char>::empty(), a);
    assert("写入无效标记注释失败: "@ + a + Seq::<char>::empty() =~= "写入无效标记注释失败: "@ + a);
    lemma_fill_one(
        "Failed to write invalid marker comment: {}"@,
        "Failed to write invalid marker comment: "@,
        Seq::<char>::empty(),
        a,
    );
    assert("Failed to write invalid marker comment: "@ + a + Seq::<char>::empty() =~= "Failed to write invalid marker comment: "@ + a);
}

proof fn lemma_refused(l: Lang, a: Seq<char>)
    ensures
        lang::message(l, "载入路由失败: {}"@, "Router load failed: {}"@, seq![a]) == match l {
            Lang::Zh => "载入路由失败: "@ + a,
            Lang::En => "Router load failed: "@ + a,
        },
{
    reveal_strlit("载入路由失败: {}");
    reveal_strlit("载入路由失败: ");
    reveal_strlit("Router load failed: {}");
    reveal_strlit("Router load failed: ");
    lemma_fill_one("载入路由失败: {}"@, "载入路由失败: "@, Seq::<char>::empty(), a);
    assert("载入路由失败: "@ + a + Seq::<char>::empty() =~= "载入路由失败: "@ + a);
    lemma_fill_one("Router load failed: {}"@, "Router load failed: "@, Seq::<char>::empty(), a);
    assert("Router load failed: "@ + a + Seq::<char>::empty() =~= "Router load failed: "@ + a);
}

proof fn lemma_skipped(l: Lang, a: Seq<char>)
    ensures
        lang::message(
            l,
            "自动恢复路由失败（跳过）: {}"@,
            "Auto-restore router failed (skipped): {}"@,
            seq![a],
        ) == match l {
            Lang::Zh => "自动恢复路由失败（跳过）: "@ + a,
            Lang::En => "Auto-restore router failed (skipped): "@ + a,
        },
{
    reveal_strlit("自动恢复路由失败（跳过）: {}");
    reveal_strlit("自动恢复路由失败（跳过）: ");
    reveal_strlit("Auto-restore router failed (skipped): {}");
    reveal_strlit("Auto-restore router failed (skipped): ");
    lemma_fill_one("自动恢复路由失败（跳过）: {}"@, "自动恢复路由失败（跳过）: "@, Seq::<char>::empty(), a);
    assert("自动恢复路由失败（跳过）: "@ + a + Seq::<char>::empty() =~= "自动恢复路由失败（跳过）: "@ + a);
    lemma_fill_one(
        "Auto-restore router failed (skipped): {}"@,
        "Auto-restore router failed (skipped): "@,
        Seq::<char>::empty(),
        a,
    );
    assert("Auto-restore router failed (skipped): "@ + a + Seq::<char>::empty() =~= "Auto-restore router failed (skipped): "@ + a);
}

proof fn lemma_counted(l: Lang, a: Seq<char>, b: Seq<char>, c: Seq<char>)
    ensures
        lang::message(
            l,
            "已载入路由 {} ({} 个配置，{} 个无效)"@,
            "Router loaded {} ({} configs, {} invalid)"@,
            seq![a, b, c],
        ) == match l {
            Lang::Zh => "已载入路由 "@ + a + " ("@ + b + " 个配置，"@ + c + " 个无效)"@,
            Lang::En => "Router loaded "@ + a + " ("@ + b + " configs, "@ + c + " invalid)"@,
        },
{
    reveal_strlit("已载入路由 {} ({} 个配置，{} 个无效)");
    reveal_strlit("已载入路由 ");
    reveal_strlit(" (");
    reveal_strlit(" 个配置，");
    reveal_strlit(" 个无效)");
    reveal_strlit("Router loaded {} ({} configs, {} invalid)");
    reveal_strlit("Router loaded ");
    reveal_strlit(" configs, ");
    reveal_strlit(" invalid)");
    lemma_fill_three("已载入路由 {} ({} 个配置，{} 个无效)"@, "已载入路由 "@, " ("@, " 个配置，"@, " 个无效)"@, a, b, c);
    lemma_fill_three(
        "Router loaded {} ({} configs, {} invalid)"@,
        "Router loaded "@,
        " ("@,
        " configs, "@,
        " invalid)"@,
        a,
        b,
        c,
    );
}

proof fn lemma_auto_loaded(l: Lang, a: Seq<char>)
    ensures
        lang::message(l, "已自动加载 {}"@, "Auto-loaded {}"@, seq![a]) == match l {
            Lang::Zh => "已自动加载 "@ + a,
            Lang::En => "Auto-loaded "@ + a,
        },
{
    reveal_strlit("已自动加载 {}");
    reveal_strlit("已自动加载 ");
    reveal_strlit("Auto-loaded {}");
    reveal_strlit("Auto-loaded ");
    lemma_fill_one("已自动加载 {}"@, "已自动加载 "@, Seq::<char>::empty(), a);
    assert("已自动加载 "@ + a + Seq::<char>::empty() =~= "已自动加载 "@ + a);
    lemma_fill_one("Auto-loaded {}"@, "Auto-loaded "@, Seq::<char>::empty(), a);
    assert("Auto-loaded "@ + a + Seq::<char>::empty() =~= "Auto-loaded "@ + a);
}

proof fn lemma_auto_load_failed(l: Lang, a: Seq<char>)
    ensures
        lang::message(
            l,
            "自动加载 zwtcfg.json 失败: {}"@,
            "Failed to auto-load zwtcfg.json: {}"@,
            seq![a],
        ) == match l {
            Lang::Zh => "自动加载 zwtcfg.json 失败: "@ + a,
            Lang::En => "Failed to auto-load zwtcfg.json: "@ + a,
        },
{
    reveal_strlit("自动加载 zwtcfg.json 失败: {}");
    reveal_strlit("自动加载 zwtcfg.json 失败: ");
    reveal_strlit("Failed to auto-load zwtcfg.json: {}");
    reveal_strlit("Failed to auto-load zwtcfg.json: ");
    lemma_fill_one(
        "自动加载 zwtcfg.json 失败: {}"@,
        "自动加载 zwtcfg.json 失败: "@,
        Seq::<char>::empty(),
        a,
    );
    assert("自动加载 zwtcfg.json 失败: "@ + a + Seq::<char>::empty() =~= "自动加载 zwtcfg.json 失败: "@ + a);
    lemma_fill_one(
        "Failed to auto-load zwtcfg.json: {}"@,
        "Failed to auto-load zwtcfg.json: "@,
        Seq::<char>::empty(),
        a,
    );
    assert("Failed to auto-load zwtcfg.json: "@ + a + Seq::<char>::empty() =~= "Failed to auto-load zwtcfg.json: "@ + a);
}

proof fn lemma_generated(l: Lang, a: Seq<char>)
    ensures
        lang::message(l, "已生成默认配置 {}"@, "Generated default config {}"@, seq![a]) == match l {
            Lang::Zh => "已生成默认配置 "@ + a,
            Lang::En => "Generated default config "@ + a,
        },
{
    reveal_strlit("已生成默认配置 {}");
    reveal_strlit("已生成默认配置 ");
    reveal_strlit("Generated default config {}");
    reveal_strlit("Generated default config ");
    lemma_fill_one("已生成默认配置 {}"@, "已生成默认配置 "@, Seq::<char>::empty(), a);
    assert("已生成默认配置 "@ + a + Seq::<char>::empty() =~= "已生成默认配置 "@ + a);
    lemma_fill_one(
        "Generated default config {}"@,
        "Generated default config "@,
        Seq::<char>::empty(),
        a,
    );
    assert("Generated default config "@ + a + Seq::<char>::empty() =~= "Generated default config "@ + a);
}

proof fn lemma_generate_failed(l: Lang, a: Seq<char>)
    ensures
        lang::message(
            l,
            "生成默认配置失败: {}"@,
            "Failed to generate default config: {}"@,
            seq![a],
        ) == match l {
            Lang::Zh => "生成默认配置失败: "@ + a,
            Lang::En => "Failed to generate default config: "@ + a,
        },
{
    reveal_strlit("生成默认配置失败: {}");
    reveal_strlit("生成默认配置失败: ");
    reveal_strlit("Failed to generate default config: {}");
    reveal_strlit("Failed to generate default config: ");
    lemma_fill_one("生成默认配置失败: {}"@, "生成默认配置失败: "@, Seq::<char>::empty(), a);
    assert("生成默认配置失败: "@ + a + Seq::<char>::empty() =~= "生成默认配置失败: "@ + a);
    lemma_fill_one(
        "Failed to generate default config: {}"@,
        "Failed to generate default config: "@,
        Seq::<char>::empty(),
        a,
    );
    assert("Failed to generate default config: "@ + a + Seq::<char>::empty() =~= "Failed to generate default config: "@ + a);
}

proof fn lemma_unsaved_session(l: Lang, a: Seq<char>)
    ensures
        lang::message(
            l,
            "保存会话状态失败: {}"@,
            "Failed to save session state: {}"@,
            seq![a],
        ) == match l {
            Lang::Zh => "保存会话状态失败: "@ + a,
            Lang::En => "Failed to save session state: "@ + a,
        },
{
    reveal_strlit("保存会话状态失败: {}");
    reveal_strlit("保存会话状态失败: ");
    reveal_strlit("Failed to save session state: {}");
    reveal_strlit("Failed to save session state: ");
    lemma_fill_one("保存会话状态失败: {}"@, "保存会话状态失败: "@, Seq::<char>::empty(), a);
    assert("保存会话状态失败: "@ + a + Seq::<char>::empty() =~= "保存会话状态失败: "@ + a);
    lemma_fill_one(
        "Failed to save session state: {}"@,
        "Failed to save session state: "@,
        Seq::<char>::empty(),
        a,
    );
    assert("Failed to save session state: "@ + a + Seq::<char>::empty() =~= "Failed to save session state: "@ + a);
}

proof fn lemma_unsaved_edit(l: Lang, a: Seq<char>)
    ensures
        lang::message(l, "自动保存失败: {}"@, "Auto-save failed: {}"@, seq![a]) == match l {
            Lang::Zh => "自动保存失败: "@ + a,
            Lang::En => "Auto-save failed: "@ + a,
        },
{
    reveal_strlit("自动保存失败: {}");
    reveal_strlit("自动保存失败: ");
    reveal_strlit("Auto-save failed: {}");
    reveal_strlit("Auto-save failed: ");
    lemma_fill_one("自动保存失败: {}"@, "自动保存失败: "@, Seq::<char>::empty(), a);
    assert("自动保存失败: "@ + a + Seq::<char>::empty() =~= "自动保存失败: "@ + a);
    lemma_fill_one("Auto-save failed: {}"@, "Auto-save failed: "@, Seq::<char>::empty(), a);
    assert("Auto-save failed: "@ + a + Seq::<char>::empty() =~= "Auto-save failed: "@ + a);
}

proof fn lemma_switched(l: Lang, a: Seq<char>, b: Seq<char>, c: Seq<char>)
    ensures
        lang::message(
            l,
            "速切: {}/{} → {}"@,
            "Quick-switch: {}/{} → {}"@,
            seq![a, b, c],
        ) == match l {
            Lang::Zh => "速切: "@ + a + "/"@ + b + " → "@ + c,
            Lang::En => "Quick-switch: "@ + a + "/"@ + b + " → "@ + c,
        },
{
    reveal_strlit("速切: {}/{} → {}");
    reveal_strlit("速切: ");
    reveal_strlit("/");
    reveal_strlit(" → ");
    reveal_strlit("Quick-switch: {}/{} → {}");
    reveal_strlit("Quick-switch: ");
    lemma_fill_three("速切: {}/{} → {}"@, "速切: "@, "/"@, " → "@, Seq::<char>::empty(), a, b, c);
    assert("速切: "@ + a + "/"@ + b + " → "@ + c + Seq::<char>::empty() =~= "速切: "@ + a + "/"@ + b + " → "@ + c);
    lemma_fill_three(
        "Quick-switch: {}/{} → {}"@,
        "Quick-switch: "@,
        "/"@,
        " → "@,
        Seq::<char>::empty(),
        a,
        b,
        c,
    );
    assert("Quick-switch: "@ + a + "/"@ + b + " → "@ + c + Seq::<char>::empty() =~= "Quick-switch: "@ + a + "/"@ + b + " → "@ + c);
}

proof fn lemma_deleted(l: Lang, a: Seq<char>)
    ensures
        lang::message(
            l,
            "配置文件 {} 已被删除（保持当前配置）"@,
            "Config file {} was deleted (keeping current config)"@,
            seq![a],
        ) == match l {
            Lang::Zh => "配置文件 "@ + a + " 已被删除（保持当前配置）"@,
            Lang::En => "Config file "@ + a + " was deleted (keeping current config)"@,
        },
{
    reveal_strlit("配置文件 {} 已被删除（保持当前配置）");
    reveal_strlit("配置文件 ");
    reveal_strlit(" 已被删除（保持当前配置）");
    reveal_strlit("Config file {} was deleted (keeping current config)");
    reveal_strlit("Config file ");
    reveal_strlit(" was deleted (keeping current config)");
    lemma_fill_one("配置文件 {} 已被删除（保持当前配置）"@, "配置文件 "@, " 已被删除（保持当前配置）"@, a);
    lemma_fill_one(
        "Config file {} was deleted (keeping current config)"@,
        "Config file "@,
        " was deleted (keeping current config)"@,
        a,
    );
}

proof fn lemma_hot_loaded(l: Lang, a: Seq<char>)
    ensures
        lang::message(
            l,
            "已热读取外部修改 {}（运行中已生效）"@,
            "Hot-loaded external change {} (applied while running)"@,
            seq![a],
        ) == match l {
            Lang::Zh => "已热读取外部修改 "@ + a + "（运行中已生效）"@,
            Lang::En => "Hot-loaded external change "@ + a + " (applied while running)"@,
        },
{
    reveal_strlit("已热读取外部修改 {}（运行中已生效）");
    reveal_strlit("已热读取外部修改 ");
    reveal_strlit("（运行中已生效）");
    reveal_strlit("Hot-loaded external change {} (applied while running)");
    reveal_strlit("Hot-loaded external change ");
    reveal_strlit(" (applied while running)");
    lemma_fill_one("已热读取外部修改 {}（运行中已生效）"@, "已热读取外部修改 "@, "（运行中已生效）"@, a);
    lemma_fill_one(
        "Hot-loaded external change {} (applied while running)"@,
        "Hot-loaded external change "@,
        " (applied while running)"@,
        a,
    );
}

proof fn lemma_hot_failed(l: Lang, a: Seq<char>)
    ensures
        lang::message(
            l,
            "热读取失败（保持当前配置，稍后重试）: {}"@,
            "Hot-load failed (keeping current config, will retry): {}"@,
            seq![a],
        ) == match l {
            Lang::Zh => "热读取失败（保持当前配置，稍后重试）: "@ + a,
            Lang::En => "Hot-load failed (keeping current config, will retry): "@ + a,
        },
{
    reveal_strlit("热读取失败（保持当前配置，稍后重试）: {}");
    reveal_strlit("热读取失败（保持当前配置，稍后重试）: ");
    reveal_strlit("Hot-load failed (keeping current config, will retry): {}");
    reveal_strlit("Hot-load failed (keeping current config, will retry): ");
    lemma_fill_one("热读取失败（保持当前配置，稍后重试）: {}"@, "热读取失败（保持当前配置，稍后重试）: "@, Seq::<char>::empty(), a);
    assert("热读取失败（保持当前配置，稍后重试）: "@ + a + Seq::<char>::empty() =~= "热读取失败（保持当前配置，稍后重试）: "@ + a);
    lemma_fill_one(
        "Hot-load failed (keeping current config, will retry): {}"@,
        "Hot-load failed (keeping current config, will retry): "@,
        Seq::<char>::empty(),
        a,
    );
    assert("Hot-load failed (keeping current config, will retry): "@ + a + Seq::<char>::empty() =~= "Hot-load failed (keeping current config, will retry): "@ + a);
}

proof fn lemma_taken(l: Lang, a: Seq<char>, b: Seq<char>)
    ensures
        lang::message(
            l,
            "绑定失败: {} 已被 {} 使用"@,
            "Bind failed: {} already used by {}"@,
            seq![a, b],
        ) == match l {
            Lang::Zh => "绑定失败: "@ + a + " 已被 "@ + b + " 使用"@,
            Lang::En => "Bind failed: "@ + a + " already used by "@ + b,
        },
{
    reveal_strlit("绑定失败: {} 已被 {} 使用");
    reveal_strlit("绑定失败: ");
    reveal_strlit(" 已被 ");
    reveal_strlit(" 使用");
    reveal_strlit("Bind failed: {} already used by {}");
    reveal_strlit("Bind failed: ");
    reveal_strlit(" already used by ");
    lemma_fill_two("绑定失败: {} 已被 {} 使用"@, "绑定失败: "@, " 已被 "@, " 使用"@, a, b);
    lemma_fill_two(
        "Bind failed: {} already used by {}"@,
        "Bind failed: "@,
        " already used by "@,
        Seq::<char>::empty(),
        a,
        b,
    );
    assert("Bind failed: "@ + a + " already used by "@ + b + Seq::<char>::empty() =~= "Bind failed: "@ + a + " already used by "@ + b);
}

proof fn lemma_mode(l: Lang, a: Seq<char>)
    ensures
        lang::message(l, "执行方式已切换为{}"@, "Execution mode switched to {}"@, seq![a]) == match l {
            Lang::Zh => "执行方式已切换为"@ + a,
            Lang::En => "Execution mode switched to "@ + a,
        },
{
    reveal_strlit("执行方式已切换为{}");
    reveal_strlit("执行方式已切换为");
    reveal_strlit("Execution mode switched to {}");
    reveal_strlit("Execution mode switched to ");
    lemma_fill_one("执行方式已切换为{}"@, "执行方式已切换为"@, Seq::<char>::empty(), a);
    assert("执行方式已切换为"@ + a + Seq::<char>::empty() =~= "执行方式已切换为"@ + a);
    lemma_fill_one(
        "Execution mode switched to {}"@,
        "Execution mode switched to "@,
        Seq::<char>::empty(),
        a,
    );
    assert("Execution mode switched to "@ + a + Seq::<char>::empty() =~= "Execution mode switched to "@ + a);
}

proof fn lemma_random(l: Lang, a: Seq<char>)
    ensures
        lang::message(l, "乱序执行已{}"@, "Random order {}"@, seq![a]) == match l {
            Lang::Zh => "乱序执行已"@ + a,
            Lang::En => "Random order "@ + a,
        },
{
    reveal_strlit("乱序执行已{}");
    reveal_strlit("乱序执行已");
    reveal_strlit("Random order {}");
    reveal_strlit("Random order ");
    lemma_fill_one("乱序执行已{}"@, "乱序执行已"@, Seq::<char>::empty(), a);
    assert("乱序执行已"@ + a + Seq::<char>::empty() =~= "乱序执行已"@ + a);
    lemma_fill_one("Random order {}"@, "Random order "@, Seq::<char>::empty(), a);
    assert("Random order "@ + a + Seq::<char>::empty() =~= "Random order "@ + a);
}

proof fn lemma_length(l: Lang, a: Seq<char>)
    ensures
        lang::message(
            l,
            "execution_order 长度须在 1~3 之间，当前: {}"@,
            "execution_order length must be 1~3, current: {}"@,
            seq![a],
        ) == match l {
            Lang::Zh => "execution_order 长度须在 1~3 之间，当前: "@ + a,
            Lang::En => "execution_order length must be 1~3, current: "@ + a,
        },
{
    reveal_strlit("execution_order 长度须在 1~3 之间，当前: {}");
    reveal_strlit("execution_order 长度须在 1~3 之间，当前: ");
    reveal_strlit("execution_order length must be 1~3, current: {}");
    reveal_strlit("execution_order length must be 1~3, current: ");
    lemma_fill_one(
        "execution_order 长度须在 1~3 之间，当前: {}"@,
        "execution_order 长度须在 1~3 之间，当前: "@,
        Seq::<char>::empty(),
        a,
    );
    assert("execution_order 长度须在 1~3 之间，当前: "@ + a + Seq::<char>::empty() =~= "execution_order 长度须在 1~3 之间，当前: "@ + a);
    lemma_fill_one(
        "execution_order length must be 1~3, current: {}"@,
        "execution_order length must be 1~3, current: "@,
        Seq::<char>::empty(),
        a,
    );
    assert("execution_order length must be 1~3, current: "@ + a + Seq::<char>::empty() =~= "execution_order length must be 1~3, current: "@ + a);
}

proof fn lemma_letter(l: Lang, a: Seq<char>)
    ensures
        lang::message(
            l,
            "execution_order 含非法字符 {}，只允许 A/B/C"@,
            "execution_order contains invalid char {}; only A/B/C allowed"@,
            seq![a],
        ) == match l {
            Lang::Zh => "execution_order 含非法字符 "@ + a + "，只允许 A/B/C"@,
            Lang::En => "execution_order contains invalid char "@ + a + "; only A/B/C allowed"@,
        },
{
    reveal_strlit("execution_order 含非法字符 {}，只允许 A/B/C");
    reveal_strlit("execution_order 含非法字符 ");
    reveal_strlit("，只允许 A/B/C");
    reveal_strlit("execution_order contains invalid char {}; only A/B/C allowed");
    reveal_strlit("execution_order contains invalid char ");
    reveal_strlit("; only A/B/C allowed");
    lemma_fill_one(
        "execution_order 含非法字符 {}，只允许 A/B/C"@,
        "execution_order 含非法字符 "@,
        "，只允许 A/B/C"@,
        a,
    );
    lemma_fill_one(
        "execution_order contains invalid char {}; only A/B/C allowed"@,
        "execution_order contains invalid char "@,
        "; only A/B/C allowed"@,
        a,
    );
}

proof fn lemma_repeat(l: Lang, a: Seq<char>)
    ensures
        lang::message(
            l,
            "execution_order 含重复字符 {}"@,
            "execution_order contains duplicate char {}"@,
            seq![a],
        ) == match l {
            Lang::Zh => "execution_order 含重复字符 "@ + a,
            Lang::En => "execution_order contains duplicate char "@ + a,
        },
{
    reveal_strlit("execution_order 含重复字符 {}");
    reveal_strlit("execution_order 含重复字符 ");
    reveal_strlit("execution_order contains duplicate char {}");
    reveal_strlit("execution_order contains duplicate char ");
    lemma_fill_one(
        "execution_order 含重复字符 {}"@,
        "execution_order 含重复字符 "@,
        Seq::<char>::empty(),
        a,
    );
    assert("execution_order 含重复字符 "@ + a + Seq::<char>::empty() =~= "execution_order 含重复字符 "@ + a);
    lemma_fill_one(
        "execution_order contains duplicate char {}"@,
        "execution_order contains duplicate char "@,
        Seq::<char>::empty(),
        a,
    );
    assert("execution_order contains duplicate char "@ + a + Seq::<char>::empty() =~= "execution_order contains duplicate char "@ + a);
}

proof fn lemma_second_key(l: Lang, a: Seq<char>)
    ensures
        lang::message(
            l,
            "第 {} 行: 出现重复的 config 键"@,
            "line {}: duplicate config key"@,
            seq![a],
        ) == match l {
            Lang::Zh => "第 "@ + a + " 行: 出现重复的 config 键"@,
            Lang::En => "line "@ + a + ": duplicate config key"@,
        },
{
    reveal_strlit("第 {} 行: 出现重复的 config 键");
    reveal_strlit("第 ");
    reveal_strlit(" 行: 出现重复的 config 键");
    reveal_strlit("line {}: duplicate config key");
    reveal_strlit("line ");
    reveal_strlit(": duplicate config key");
    lemma_fill_one("第 {} 行: 出现重复的 config 键"@, "第 "@, " 行: 出现重复的 config 键"@, a);
    lemma_fill_one("line {}: duplicate config key"@, "line "@, ": duplicate config key"@, a);
}

proof fn lemma_unclosed(l: Lang, a: Seq<char>)
    ensures
        lang::message(
            l,
            "第 {} 行: 流式列表未闭合 (缺少 ])"@,
            "line {}: inline list not closed (missing ])"@,
            seq![a],
        ) == match l {
            Lang::Zh => "第 "@ + a + " 行: 流式列表未闭合 (缺少 ])"@,
            Lang::En => "line "@ + a + ": inline list not closed (missing ])"@,
        },
{
    reveal_strlit("第 {} 行: 流式列表未闭合 (缺少 ])");
    reveal_strlit("第 ");
    reveal_strlit(" 行: 流式列表未闭合 (缺少 ])");
    reveal_strlit("line {}: inline list not closed (missing ])");
    reveal_strlit("line ");
    reveal_strlit(": inline list not closed (missing ])");
    lemma_fill_one("第 {} 行: 流式列表未闭合 (缺少 ])"@, "第 "@, " 行: 流式列表未闭合 (缺少 ])"@, a);
    lemma_fill_one(
        "line {}: inline list not closed (missing ])"@,
        "line "@,
        ": inline list not closed (missing ])"@,
        a,
    );
}

proof fn lemma_no_item(l: Lang, a: Seq<char>, b: Seq<char>)
    ensures
        lang::message(
            l,
            "第 {} 行: config 列表中出现非列表项 {}"@,
            "line {}: non-list item in config list {}"@,
            seq![a, b],
        ) == match l {
            Lang::Zh => "第 "@ + a + " 行: config 列表中出现非列表项 "@ + b,
            Lang::En => "line "@ + a + ": non-list item in config list "@ + b,
        },
{
    reveal_strlit("第 {} 行: config 列表中出现非列表项 {}");
    reveal_strlit("第 ");
    reveal_strlit(" 行: config 列表中出现非列表项 ");
    reveal_strlit("line {}: non-list item in config list {}");
    reveal_strlit("line ");
    reveal_strlit(": non-list item in config list ");
    lemma_fill_two(
        "第 {} 行: config 列表中出现非列表项 {}"@,
        "第 "@,
        " 行: config 列表中出现非列表项 "@,
        Seq::<char>::empty(),
        a,
        b,
    );
    assert("第 "@ + a + " 行: config 列表中出现非列表项 "@ + b + Seq::<char>::empty() =~= "第 "@ + a + " 行: config 列表中出现非列表项 "@ + b);
    lemma_fill_two(
        "line {}: non-list item in config list {}"@,
        "line "@,
        ": non-list item in config list "@,
        Seq::<char>::empty(),
        a,
        b,
    );
    assert("line "@ + a + ": non-list item in config list "@ + b + Seq::<char>::empty() =~= "line "@ + a + ": non-list item in config list "@ + b);
}

proof fn lemma_unknown(l: Lang, a: Seq<char>, b: Seq<char>)
    ensures
        lang::message(
            l,
            "第 {} 行: 无法识别的配置 {}，预期为 config 文件列表"@,
            "line {}: unrecognized config {}, expected a config file list"@,
            seq![a, b],
        ) == match l {
            Lang::Zh => "第 "@ + a + " 行: 无法识别的配置 "@ + b + "，预期为 config 文件列表"@,
            Lang::En => "line "@ + a + ": unrecognized config "@ + b + ", expected a config file list"@,
        },
{
    reveal_strlit("第 {} 行: 无法识别的配置 {}，预期为 config 文件列表");
    reveal_strlit("第 ");
    reveal_strlit(" 行: 无法识别的配置 ");
    reveal_strlit("，预期为 config 文件列表");
    reveal_strlit("line {}: unrecognized config {}, expected a config file list");
    reveal_strlit("line ");
    reveal_strlit(": unrecognized config ");
    reveal_strlit(", expected a config file list");
    lemma_fill_two(
        "第 {} 行: 无法识别的配置 {}，预期为 config 文件列表"@,
        "第 "@,
        " 行: 无法识别的配置 "@,
        "，预期为 config 文件列表"@,
        a,
        b,
    );
    lemma_fill_two(
        "line {}: unrecognized config {}, expected a config file list"@,
        "line "@,
        ": unrecognized config "@,
        ", expected a config file list"@,
        a,
        b,
    );
}

// ---------------------------------------------------------------------------
// Files and dialogs
// ---------------------------------------------------------------------------

/// The message that is told.
pub open spec fn said(s: AppView) -> Seq<char> {
    s.status->0.text
}

/// An export tells the file, or why it failed.
pub proof fn an_export_is_told(s: AppView, path: Seq<char>, e: Seq<char>)
    requires
        s.task == (TaskView::Export { path }),
    ensures
        said(s.resumed(ReplyView::Done(Ok(())))) == match s.l() {
            Lang::Zh => "已导出到 "@ + path,
            Lang::En => "Exported to "@ + path,
        },
        said(s.resumed(ReplyView::Done(Err(e)))) == match s.l() {
            Lang::Zh => "导出失败: "@ + e,
            Lang::En => "Export failed: "@ + e,
        },
{
    reveal(AppView::resumed_done);
    lemma_exported(s.l(), path);
    lemma_export_failed(s.l(), e);
}

/// A load tells the file, or why it failed.
pub proof fn a_load_is_told(s: AppView, path: Seq<char>, e: Seq<char>, r: Result<(), Seq<char>>)
    ensures
        said(
            s.at(TaskView::ApplySession { path, goal: GoalView::LoadDialog }).resumed(
                ReplyView::Done(r),
            ),
        ) == match s.l() {
            Lang::Zh => "已读取 "@ + path + " (当前行为基于该配置)"@,
            Lang::En => "Loaded "@ + path + " (current behavior is based on this config)"@,
        },
        said(
            s.at(TaskView::ApplyLoad { path, goal: GoalView::LoadDialog }).resumed(
                ReplyView::Loaded(Err(e)),
            ),
        ) == match s.l() {
            Lang::Zh => "读取失败: "@ + e,
            Lang::En => "Load failed: "@ + e,
        },
{
    reveal(AppView::resumed_done);
    reveal(AppView::resumed_loaded);
    lemma_loaded(s.l(), path);
    lemma_load_failed(s.l(), e);
}

/// A cancelled dialog tells what was cancelled.
pub proof fn a_cancellation_is_told(s: AppView, kind: DialogKind)
    ensures
        said(s.at(TaskView::Pick { kind }).resumed(ReplyView::Picked(None))) == match (kind, s.l()) {
            (DialogKind::Export, Lang::Zh) => "已取消导出"@,
            (DialogKind::Export, Lang::En) => "Export cancelled"@,
            (DialogKind::Load, Lang::Zh) => "已取消读取"@,
            (DialogKind::Load, Lang::En) => "Load cancelled"@,
            (DialogKind::Router, Lang::Zh) => "已取消载入路由"@,
            (DialogKind::Router, Lang::En) => "Router load cancelled"@,
        },
{
    reveal(AppView::resumed_picked);
}

/// A router table that was loaded is told with the number of its entries and of
/// those that cannot be used; it is a success only where there are none of the
/// latter.
pub proof fn a_loaded_table_is_counted(s: AppView, table: Seq<char>, r: Result<(), Seq<char>>)
    ensures
        ({
            let after = s.at(TaskView::TableSession { table, caller: CallerView::Dialog }).resumed(
                ReplyView::Done(r),
            );
            let bad = s.router_files.filter(|f: EntryView| !f.valid).len();
            let all = text::decimal(s.router_files.len());
            &&& said(after) == match s.l() {
                Lang::Zh => "已载入路由 "@ + table + " ("@ + all + " 个配置，"@ + text::decimal(bad)
                    + " 个无效)"@,
                Lang::En => "Router loaded "@ + table + " ("@ + all + " configs, "@
                    + text::decimal(bad) + " invalid)"@,
            }
            &&& after.status->0.kind == if bad == 0 {
                MsgKind::Success
            } else {
                MsgKind::Info
            }
        }),
{
    reveal(AppView::resumed_done);
    crate::flow_laws::unusable_entries_are_counted(s.router_files);
    let bad = s.router_files.filter(|f: EntryView| !f.valid).len();
    lemma_counted(s.l(), table, text::decimal(s.router_files.len()), text::decimal(bad));
}

/// Why a router table was refused.
pub open spec fn refusal(l: Lang, caller: CallerView, reason: Seq<char>) -> Seq<char> {
    match (caller, l) {
        (CallerView::Dialog, Lang::Zh) => "载入路由失败: "@ + reason,
        (CallerView::Dialog, Lang::En) => "Router load failed: "@ + reason,
        (CallerView::Restore { state }, Lang::Zh) => "自动恢复路由失败（跳过）: "@ + reason,
        (CallerView::Restore { state }, Lang::En) => "Auto-restore router failed (skipped): "@
            + reason,
    }
}

/// A router table that could not be read, parsed or written is told with what
/// failed and why, and whether the user chose it or the session did.
pub proof fn a_refused_table_is_told(
    s: AppView,
    table: Seq<char>,
    caller: CallerView,
    content: Seq<char>,
    entries: Seq<EntryView>,
    e: Seq<char>,
)
    ensures
        said(
            s.at(TaskView::TableRead { table, caller }).resumed(ReplyView::Content(Err(e))),
        ) == refusal(
            s.l(),
            caller,
            match s.l() {
                Lang::Zh => "读取路由文件失败: "@ + e,
                Lang::En => "Failed to read router file: "@ + e,
            },
        ),
        router::table(content) matches Err(f) ==> said(
            s.at(TaskView::TableRead { table, caller }).resumed(ReplyView::Content(Ok(content))),
        ) == refusal(
            s.l(),
            caller,
            match s.l() {
                Lang::Zh => "路由文件语法/规范错误: "@ + router::fault_text(s.l(), f),
                Lang::En => "Router file syntax/spec error: "@ + router::fault_text(s.l(), f),
            },
        ),
        said(
            s.at(TaskView::TableWrite { table, content, entries, caller }).resumed(
                ReplyView::Done(Err(e)),
            ),
        ) == refusal(
            s.l(),
            caller,
            match s.l() {
                Lang::Zh => "写入无效标记注释失败: "@ + e,
                Lang::En => "Failed to write invalid marker comment: "@ + e,
            },
        ),
{
    let l = s.l();
    reveal(AppView::resumed_done);
    reveal(AppView::resumed_content);
    lemma_unreadable(l, e);
    lemma_unmarked(l, e);
    let read = lang::message(
        l,
        "读取路由文件失败: {}"@,
        "Failed to read router file: {}"@,
        seq![e],
    );
    let write = lang::message(
        l,
        "写入无效标记注释失败: {}"@,
        "Failed to write invalid marker comment: {}"@,
        seq![e],
    );
    lemma_refused(l, read);
    lemma_skipped(l, read);
    lemma_refused(l, write);
    lemma_skipped(l, write);
    if let Err(f) = router::table(content) {
        lemma_misspelt(l, router::fault_text(l, f));
        let parse = lang::message(
            l,
            "路由文件语法/规范错误: {}"@,
            "Router file syntax/spec error: {}"@,
            seq![router::fault_text(l, f)],
        );
        lemma_refused(l, parse);
        lemma_skipped(l, parse);
    }
}

/// What is wrong with a router table is told with its line.
pub proof fn faults_of_a_table_are_told(l: Lang, line: nat, t: Seq<char>)
    ensures
        router::fault_text(l, RouterFault::SecondKey { line }) == match l {
            Lang::Zh => "第 "@ + text::decimal(line) + " 行: 出现重复的 config 键"@,
            Lang::En => "line "@ + text::decimal(line) + ": duplicate config key"@,
        },
        router::fault_text(l, RouterFault::Unclosed { line }) == match l {
            Lang::Zh => "第 "@ + text::decimal(line) + " 行: 流式列表未闭合 (缺少 ])"@,
            Lang::En => "line "@ + text::decimal(line) + ": inline list not closed (missing ])"@,
        },
        router::fault_text(l, RouterFault::NoItem { line, text: t }) == match l {
            Lang::Zh => "第 "@ + text::decimal(line) + " 行: config 列表中出现非列表项 "@ + t,
            Lang::En => "line "@ + text::decimal(line) + ": non-list item in config list "@ + t,
        },
        router::fault_text(l, RouterFault::Unknown { line, text: t }) == match l {
            Lang::Zh => "第 "@ + text::decimal(line) + " 行: 无法识别的配置 "@ + t
                + "，预期为 config 文件列表"@,
            Lang::En => "line "@ + text::decimal(line) + ": unrecognized config "@ + t
                + ", expected a config file list"@,
        },
        router::fault_text(l, RouterFault::NoEntry) == match l {
            Lang::Zh => "config 文件列表为空"@,
            Lang::En => "config file list is empty"@,
        },
{
    lemma_second_key(l, text::decimal(line));
    lemma_unclosed(l, text::decimal(line));
    lemma_no_item(l, text::decimal(line), t);
    lemma_unknown(l, text::decimal(line), t);
}

/// What is wrong with an execution order is told with the order, or with the
/// letter that is wrong.
pub proof fn faults_of_an_order_are_told(l: Lang, order: Seq<char>, b: u8)
    ensures
        config::fault_text(l, order, Fault::OrderLength) == match l {
            Lang::Zh => "execution_order 长度须在 1~3 之间，当前: "@ + order,
            Lang::En => "execution_order length must be 1~3, current: "@ + order,
        },
        config::fault_text(l, order, Fault::OrderLetter(b)) == match l {
            Lang::Zh => "execution_order 含非法字符 "@ + seq![b as char] + "，只允许 A/B/C"@,
            Lang::En => "execution_order contains invalid char "@ + seq![b as char]
                + "; only A/B/C allowed"@,
        },
        config::fault_text(l, order, Fault::OrderRepeat(b)) == match l {
            Lang::Zh => "execution_order 含重复字符 "@ + seq![b as char],
            Lang::En => "execution_order contains duplicate char "@ + seq![b as char],
        },
{
    lemma_length(l, order);
    lemma_letter(l, seq![b as char]);
    lemma_repeat(l, seq![b as char]);
}

/// A table whose first usable entry could not be read after all is told with the
/// number of that entry, counted from one, and the reason.
pub proof fn a_failed_first_entry_is_told(
    s: AppView,
    path: Seq<char>,
    table: Seq<char>,
    caller: CallerView,
    e: Seq<char>,
)
    requires
        s.task == (TaskView::ApplyLoad { path, goal: GoalView::FirstOfTable { table, caller } }),
    ensures
        said(s.resumed(ReplyView::Loaded(Err(e)))) == match s.l() {
            Lang::Zh => "已载入路由但加载 #"@ + text::decimal((s.router_index + 1) as nat)
                + " 失败: "@ + e,
            Lang::En => "Router loaded but failed to load #"@ + text::decimal(
                (s.router_index + 1) as nat,
            ) + ": "@ + e,
        },
{
    reveal(AppView::resumed_loaded);
    lemma_first_failed(s.l(), text::decimal((s.router_index + 1) as nat), e);
}

/// What happened with the default file is told with its name, or with the
/// reason.
pub proof fn the_default_file_is_told(
    s: AppView,
    session: Option<SessionView>,
    c: ConfigView,
    e: Seq<char>,
)
    requires
        config::keeps_the_rules(c),
    ensures
        ({
            let load = s.at(TaskView::DefaultLoad { session });
            let save = s.at(TaskView::DefaultSave { session });
            &&& said(load.resumed(ReplyView::Loaded(Ok(c)))) == match s.l() {
                Lang::Zh => "已自动加载 "@ + "zwtcfg.json"@,
                Lang::En => "Auto-loaded "@ + "zwtcfg.json"@,
            }
            &&& said(load.resumed(ReplyView::Loaded(Err(e)))) == match s.l() {
                Lang::Zh => "自动加载 zwtcfg.json 失败: "@ + e,
                Lang::En => "Failed to auto-load zwtcfg.json: "@ + e,
            }
            &&& said(save.resumed(ReplyView::Done(Ok(())))) == match s.l() {
                Lang::Zh => "已生成默认配置 "@ + "zwtcfg.json"@,
                Lang::En => "Generated default config "@ + "zwtcfg.json"@,
            }
            &&& said(save.resumed(ReplyView::Done(Err(e)))) == match s.l() {
                Lang::Zh => "生成默认配置失败: "@ + e,
                Lang::En => "Failed to generate default config: "@ + e,
            }
        }),
{
    config::the_rules_decide(s.l(), c, e);
    let load = s.at(TaskView::DefaultLoad { session });
    let save = s.at(TaskView::DefaultSave { session });
    assert(load.resumed(ReplyView::Loaded(Ok(c))) == load.default_loaded(session, Ok(c))
        && load.resumed(ReplyView::Loaded(Err(e))) == load.default_loaded(session, Err(e))) by {
        reveal(AppView::resumed_loaded);
    }
    assert(save.resumed(ReplyView::Done(Ok(()))) == save.default_saved(session, Ok(()))
        && save.resumed(ReplyView::Done(Err(e))) == save.default_saved(session, Err(e))) by {
        reveal(AppView::resumed_done);
    }
    lemma_auto_loaded(s.l(), "zwtcfg.json"@);
    lemma_auto_load_failed(s.l(), e);
    lemma_generated(s.l(), "zwtcfg.json"@);
    lemma_generate_failed(s.l(), e);
}

/// A session and an edit that could not be saved are told with the reason.
pub proof fn what_is_not_saved_is_told(s: AppView, e: Seq<char>)
    ensures
        said(s.session_saved(Err(e))) == match s.l() {
            Lang::Zh => "保存会话状态失败: "@ + e,
            Lang::En => "Failed to save session state: "@ + e,
        },
        said(s.at(TaskView::LangSession).resumed(ReplyView::Done(Err(e)))) == said(
            s.session_saved(Err(e)),
        ),
        said(s.at(TaskView::AutoSave).resumed(ReplyView::Done(Err(e)))) == match s.l() {
            Lang::Zh => "自动保存失败: "@ + e,
            Lang::En => "Auto-save failed: "@ + e,
        },
{
    reveal(AppView::resumed_done);
    lemma_unsaved_session(s.l(), e);
    lemma_unsaved_edit(s.l(), e);
}

/// A quick switch is told with the number of the entry, counted from one, the
/// number of entries, and the path; without a router table, or without an entry
/// that can be used, that is told.
pub proof fn a_quick_switch_is_told(
    s: AppView,
    index: usize,
    r: Result<(), Seq<char>>,
    tried: usize,
    e: Seq<char>,
)
    ensures
        said(s.at(TaskView::SwitchSession { index }).resumed(ReplyView::Done(r))) == ({
            let number = text::decimal((index + 1) as nat);
            let all = text::decimal(s.router_files.len());
            let path = s.router_files[index as int].path;
            match s.l() {
                Lang::Zh => "速切: "@ + number + "/"@ + all + " → "@ + path,
                Lang::En => "Quick-switch: "@ + number + "/"@ + all + " → "@ + path,
            }
        }),
        s.router_files.len() == 0 ==> said(s.on_message(EngineMsg::RouterNext)) == match s.l() {
            Lang::Zh => "未载入路由 (zwtcfg_router.yaml)，请先在操作中载入"@,
            Lang::En => "No router loaded (zwtcfg_router.yaml); load one from Operations first"@,
        },
        tried >= s.router_files.len() ==> said(
            s.at(TaskView::SwitchLoad { index, tried }).resumed(ReplyView::Loaded(Err(e))),
        ) == match s.l() {
            Lang::Zh => "速切失败: 路由中所有配置均无效"@,
            Lang::En => "Quick-switch failed: all router configs are invalid"@,
        },
{
    reveal(AppView::resumed_done);
    reveal(AppView::resumed_loaded);
    lemma_switched(
        s.l(),
        text::decimal((index + 1) as nat),
        text::decimal(s.router_files.len()),
        s.router_files[index as int].path,
    );
}

/// A change of the active file is told with its path, and so is that it is gone;
/// a change that cannot be used is told with the reason.
pub proof fn a_change_of_the_file_is_told(
    s: AppView,
    path: Seq<char>,
    t: Mtime,
    c: ConfigView,
    e: Seq<char>,
)
    requires
        s.config_source == Some(path),
        config::keeps_the_rules(c),
    ensures
        s.config_mtime is Some ==> said(
            s.at(TaskView::HotStat).resumed(ReplyView::Stamp(None)),
        ) == match s.l() {
            Lang::Zh => "配置文件 "@ + path + " 已被删除（保持当前配置）"@,
            Lang::En => "Config file "@ + path + " was deleted (keeping current config)"@,
        },
        said(s.at(TaskView::HotLoad { mtime: t }).resumed(ReplyView::Loaded(Ok(c)))) == match s.l() {
            Lang::Zh => "已热读取外部修改 "@ + path + "（运行中已生效）"@,
            Lang::En => "Hot-loaded external change "@ + path + " (applied while running)"@,
        },
        said(
            s.at(TaskView::HotLoad { mtime: t }).resumed(ReplyView::Loaded(Err(e))),
        ) == match s.l() {
            Lang::Zh => "热读取失败（保持当前配置，稍后重试）: "@ + e,
            Lang::En => "Hot-load failed (keeping current config, will retry): "@ + e,
        },
{
    config::the_rules_decide(s.l(), c, e);
    reveal(AppView::resumed_stamped);
    reveal(AppView::resumed_loaded);
    lemma_deleted(s.l(), path);
    lemma_hot_loaded(s.l(), path);
    lemma_hot_failed(s.l(), e);
}

// ---------------------------------------------------------------------------
// Edits
// ---------------------------------------------------------------------------

/// What a binding field is called in a message.
pub open spec fn binding_name(l: Lang, field: usize) -> Seq<char> {
    match (field, l) {
        (0, Lang::Zh) => "武器槽#1"@,
        (0, Lang::En) => "Weapon Slot #1"@,
        (1, Lang::Zh) => "武器槽#2"@,
        (1, Lang::En) => "Weapon Slot #2"@,
        (2, Lang::Zh) => "武器槽#3"@,
        (2, Lang::En) => "Weapon Slot #3"@,
        (3, Lang::Zh) => "执行热键"@,
        (3, Lang::En) => "Execution Hotkey"@,
        (_, Lang::Zh) => "速切配置热键"@,
        (_, Lang::En) => "Quick-switch Hotkey"@,
    }
}

proof fn lemma_first_holder(c: ConfigView, field: usize, name: Seq<char>, i: usize, k: usize)
    requires
        k <= i <= 4,
        i != field,
        fields::binding_of(c, i) == name,
        forall|j: usize| j < i && j != field ==> #[trigger] fields::binding_of(c, j) != name,
    ensures
        fields::holder(c, field, name, k) == Some(i),
    decreases i - k,
{
    if k < i {
        if k != field {
            assert(fields::binding_of(c, k) != name);
        }
        lemma_first_holder(c, field, name, i, (k + 1) as usize);
    }
}

/// A refused binding is told with its name and with the first field that has it;
/// one that is set is told as well.
pub proof fn a_binding_is_told(s: AppView, field: usize, name: Seq<char>, i: usize)
    requires
        field <= 4,
    ensures
        i <= 4 && i != field && fields::binding_of(s.cfg, i) == name && (forall|j: usize|
            j < i && j != field ==> #[trigger] fields::binding_of(s.cfg, j) != name) ==> said(
            s.bound(field, name),
        ) == match s.l() {
            Lang::Zh => "绑定失败: "@ + name + " 已被 "@ + binding_name(s.l(), i) + " 使用"@,
            Lang::En => "Bind failed: "@ + name + " already used by "@ + binding_name(s.l(), i),
        },
        !crate::edit::is_taken(s.cfg, field, name) ==> said(s.bound(field, name)) == match s.l() {
            Lang::Zh => "按键已绑定"@,
            Lang::En => "Key bound"@,
        },
{
    if i <= 4 && i != field && fields::binding_of(s.cfg, i) == name && forall|j: usize|
        j < i && j != field ==> #[trigger] fields::binding_of(s.cfg, j) != name {
        lemma_first_holder(s.cfg, field, name, i, 0);
        lemma_taken(s.l(), name, fields::binding_label(s.l(), i));
        assert(fields::binding_label(s.l(), i) == binding_name(s.l(), i));
    }
    if !crate::edit::is_taken(s.cfg, field, name) {
        lemma_holder_holds(s.cfg, field, name, 0);
    }
}

proof fn lemma_holder_holds(c: ConfigView, field: usize, name: Seq<char>, i: usize)
    requires
        i <= 5,
    ensures
        fields::holder(c, field, name, i) matches Some(j) ==> j <= 4 && j != field
            && fields::binding_of(c, j) == name,
    decreases 5 - i,
{
    if i <= 4 {
        lemma_holder_holds(c, field, name, (i + 1) as usize);
    }
}

/// A switch that was flipped is told with its new position.
pub proof fn a_flipped_switch_is_told(s: AppView)
    requires
        s.mode is Normal,
        s.focus == 6 || s.focus == 7,
    ensures
        ({
            let after = s.on_event(Event::Key { code: KeyCode::Enter, press: true }).0;
            &&& s.focus == 6 ==> said(after) == match (after.cfg.execution_mode, s.l()) {
                (ExecutionMode::Hold, Lang::Zh) => "执行方式已切换为"@ + "长按"@,
                (ExecutionMode::Hold, Lang::En) => "Execution mode switched to "@ + "Hold"@,
                (ExecutionMode::Toggle, Lang::Zh) => "执行方式已切换为"@ + "切换"@,
                (ExecutionMode::Toggle, Lang::En) => "Execution mode switched to "@ + "Toggle"@,
            }
            &&& s.focus == 7 ==> said(after) == match (after.cfg.random_execution, s.l()) {
                (true, Lang::Zh) => "乱序执行已"@ + "开"@,
                (true, Lang::En) => "Random order "@ + "ON"@,
                (false, Lang::Zh) => "乱序执行已"@ + "关"@,
                (false, Lang::En) => "Random order "@ + "OFF"@,
            }
        }),
{
    let after = s.on_event(Event::Key { code: KeyCode::Enter, press: true }).0;
    lemma_mode(s.l(), fields::mode_label(s.l(), after.cfg.execution_mode));
    lemma_random(s.l(), fields::switch_label(s.l(), after.cfg.random_execution));
}

/// A number and an execution order that are taken over or refused are told so.
pub proof fn an_entry_is_told(s: AppView, field: usize, buf: Seq<char>)
    ensures
        s.mode == (ModeView::Edit { field, buf }) ==> ({
            let after = s.on_event(Event::Key { code: KeyCode::Enter, press: true }).0;
            &&& after.mode is Normal ==> said(after) == match s.l() {
                Lang::Zh => "数值已更新"@,
                Lang::En => "Value updated"@,
            }
            &&& after.mode is Edit ==> said(after) == match s.l() {
                Lang::Zh => "间隔不能为 0，请输入一个正整数（单位 ms）"@,
                Lang::En => "Interval cannot be 0; enter a positive integer (ms)"@,
            }
        }),
        s.mode == (ModeView::OrderEdit { field, buf }) ==> ({
            let after = s.on_message(EngineMsg::CaptureKey(Key::Return));
            &&& after.mode is Normal ==> said(after) == match s.l() {
                Lang::Zh => "执行顺序已更新"@,
                Lang::En => "Execution order updated"@,
            }
            &&& after.mode is OrderEdit ==> said(after) == match s.l() {
                Lang::Zh =>
                    "执行顺序无效: 从 A/B/C 选 1~3 个，每个最多一次 (如 A, AB, ABC)"@,
                Lang::En =>
                    "Invalid execution order: pick 1~3 from A/B/C, each at most once (e.g. A, AB, ABC)"@,
            }
            &&& buf.contains('A') ==> said(s.on_message(EngineMsg::CaptureKey(Key::KeyA)))
                == match s.l() {
                Lang::Zh =>
                    "执行顺序无效: 从 A/B/C 选 1~3 个，每个最多一次 (如 A, AB, ABC)"@,
                Lang::En =>
                    "Invalid execution order: pick 1~3 from A/B/C, each at most once (e.g. A, AB, ABC)"@,
            }
        }),
{
}

/// Without anything else to tell, the start explains the keys.
pub proof fn the_keys_are_explained(s: AppView)
    requires
        s.task is RestoreSession,
        s.status is None,
    ensures
        said(s.resumed(ReplyView::Done(Ok(())))) == match s.l() {
            Lang::Zh => "Tab 切换项目, Enter 编辑/确认, 执行热键 启动/停止操作, Esc 退出"@,
            Lang::En =>
                "Tab to switch field, Enter to edit/confirm, execution hotkey to start/stop, Esc to exit"@,
        },
{
    reveal(AppView::resumed_done);
}

} // verus!
