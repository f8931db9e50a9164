//! What can be seen on the screen, stated by the texts and colours.

use vstd::prelude::*;

use crate::config::ExecutionMode;
use crate::fields;
use crate::lang::Lang;
use crate::screen;
use crate::screen::{Color, SpanView};
use crate::state::{AppView, ModeView};

verus! {

/// The keys go to the field with the focus, or to the one that is captured or
/// edited; it alone is white on blue and bold, every other field is gray.
pub proof fn the_active_field_is_highlighted(s: AppView, fi: usize)
    ensures
        ({
            let active = match s.mode {
                ModeView::Normal => fi == s.focus,
                ModeView::Capture { field } => fi == field,
                ModeView::Edit { field, .. } => fi == field,
                ModeView::OrderEdit { field, .. } => fi == field,
            };
            let style = s.field_view(fi).style;
            &&& s.active(fi) == active
            &&& style.fg == Some(
                if active {
                    Color::White
                } else {
                    Color::Gray
                },
            )
            &&& style.bg == if active {
                Some(Color::Blue)
            } else {
                None
            }
            &&& style.bold == active
        }),
{
}

/// A binding is shown behind its name, or that there is none; while it is
/// captured, that a key or a button is to be pressed.
pub proof fn a_binding_is_shown(s: AppView, fi: usize)
    requires
        fi <= 4,
    ensures
        ({
            let value = fields::binding_of(s.cfg, fi);
            s.field_view(fi).text == fields::label_of(s.l(), fi) + ": "@ + if s.mode == (
            ModeView::Capture { field: fi }) {
                match s.l() {
                    Lang::Zh => "按下一个按键或鼠标键..."@,
                    Lang::En => "Press a key or mouse button..."@,
                }
            } else if value.len() == 0 {
                match s.l() {
                    Lang::Zh => "未绑定"@,
                    Lang::En => "Unbound"@,
                }
            } else {
                value
            }
        }),
{
}

/// A number is shown behind its name, an offset with a plus-minus sign; while it
/// is edited, what was entered so far is shown instead, with a cursor. So is the
/// execution order.
pub proof fn what_is_entered_is_shown(s: AppView, fi: usize)
    requires
        fi == 5 || 8 <= fi <= 11,
    ensures
        ({
            let value = fields::value_of(s.l(), s.cfg, fi);
            let entered = match s.mode {
                ModeView::Edit { field, buf } => if field == fi && fi >= 8 {
                    buf + "▌"@
                } else {
                    value
                },
                ModeView::OrderEdit { field, buf } => if field == fi && fi == 5 {
                    buf + "▌"@
                } else {
                    value
                },
                _ => value,
            };
            s.field_view(fi).text == fields::label_of(s.l(), fi) + ": "@ + if fi == 9 || fi == 11 {
                "±"@ + entered
            } else {
                entered
            }
        }),
{
}

/// A switch is shown behind its name, and an operation in brackets.
pub proof fn switches_and_operations_are_shown(s: AppView, fi: usize)
    requires
        fi == 6 || fi == 7 || 12 <= fi < 16,
    ensures
        fi <= 7 ==> s.field_view(fi).text == fields::label_of(s.l(), fi) + ": "@
            + fields::value_of(s.l(), s.cfg, fi),
        fi >= 12 ==> s.field_view(fi).text == "[ "@ + fields::label_of(s.l(), fi) + " ]"@,
{
}

proof fn lemma_row_spans(s: AppView, row: Seq<usize>)
    requires
        row.len() > 0,
    ensures
        s.row_spans(row).len() == 2 * row.len() - 1,
        forall|i: int| 0 <= i < row.len() ==> #[trigger] s.row_spans(row)[2 * i] == s.field_view(
            row[i],
        ),
    decreases row.len(),
{
    if row.len() > 1 {
        let init = row.drop_last();
        lemma_row_spans(s, init);
        let before = s.row_spans(init);
        let all = s.row_spans(row);
        assert forall|i: int| 0 <= i < row.len() implies #[trigger] all[2 * i] == s.field_view(
            row[i],
        ) by {
            if i < row.len() - 1 {
                assert(all[2 * i] == before[2 * i]);
                assert(init[i] == row[i]);
            }
        }
    }
}

/// The first field of the row with the given field, and the number of fields in
/// that row.
pub open spec fn row_bounds(fi: usize) -> (int, int) {
    if fi <= 2 {
        (0, 3)
    } else if fi <= 4 {
        (3, 2)
    } else if fi <= 7 {
        (5, 3)
    } else if fi <= 9 {
        (8, 2)
    } else if fi <= 11 {
        (10, 2)
    } else {
        (12, 4)
    }
}

/// Every field can be seen: the bindings in the second panel in two lines, the
/// execution order and the switches in the third, the numbers in the fourth in
/// two lines, and the operations in the fifth; in each line from left to right
/// with a gap between neighbours.
pub proof fn every_field_is_on_the_screen(
    s: AppView,
    running: bool,
    source_name: Option<Seq<char>>,
    names: Seq<Option<Seq<char>>>,
    fi: usize,
)
    requires
        fi < 16,
    ensures
        ({
            let panels = s.screen(running, source_name, names);
            let (panel, line) = if fi <= 2 {
                (1int, 0int)
            } else if fi <= 4 {
                (1int, 1int)
            } else if fi <= 7 {
                (2int, 0int)
            } else if fi <= 9 {
                (3int, 0int)
            } else if fi <= 11 {
                (3int, 1int)
            } else {
                (4int, 0int)
            };
            let (first, count) = row_bounds(fi);
            let spans = panels[panel].lines[line].spans;
            &&& panels.len() == 6
            &&& spans.len() == 2 * count - 1
            &&& spans[2 * (fi - first)] == s.field_view(fi)
        }),
{
    let row = fields::row_of(fi as int);
    let members = fields::row_fields(row);
    lemma_row_spans(s, members);
    let (first, count) = row_bounds(fi);
    assert(members.len() == count);
    assert(members[fi - first] == fi);
    let panels = s.screen(running, source_name, names);
    assert(panels[1].lines[0] == s.row_line(0));
    assert(panels[1].lines[1] == s.row_line(1));
    assert(panels[2].lines[0] == s.row_line(2));
    assert(panels[3].lines[0] == s.row_line(3));
    assert(panels[3].lines[1] == s.row_line(4));
    assert(panels[4].lines[0] == s.row_line(5));
}

/// The status line shows whether the macro runs. Without a router table it shows
/// the name of the active file, or that there is none.
pub proof fn the_status_line_shows_the_state(
    s: AppView,
    running: bool,
    source_name: Option<Seq<char>>,
    names: Seq<Option<Seq<char>>>,
)
    ensures
        ({
            let spans = s.screen(running, source_name, names)[5].lines[1].spans;
            &&& spans[0].text == match (running, s.l()) {
                (true, Lang::Zh) => "● 执行中"@,
                (true, Lang::En) => "● Executing"@,
                (false, Lang::Zh) => "○ 已停止"@,
                (false, Lang::En) => "○ Stopped"@,
            }
            &&& spans[0].style.fg == Some(
                if running {
                    Color::Green
                } else {
                    Color::DarkGray
                },
            )
            &&& spans[0].style.bold
            &&& spans[1].text == match (s.router_files.len() == 0, s.l()) {
                (true, Lang::Zh) => " | 配置文件: "@,
                (true, Lang::En) => " | Config: "@,
                (false, Lang::Zh) => " | 路由: "@,
                (false, Lang::En) => " | Router: "@,
            }
            &&& s.router_files.len() == 0 ==> spans.len() == 3 && spans[2].text
                == match source_name {
                Some(n) => n,
                None => match s.l() {
                    Lang::Zh => "默认配置"@,
                    Lang::En => "default config"@,
                },
            }
        }),
{
}

proof fn lemma_entry_spans(s: AppView, names: Seq<Option<Seq<char>>>, k: nat)
    requires
        0 < k <= s.router_files.len(),
    ensures
        s.entry_spans(names, k).len() == 2 * k - 1,
        forall|i: int|
            0 <= i < k ==> #[trigger] s.entry_spans(names, k)[2 * i] == (SpanView {
                text: screen::entry_name(s.router_files, names, i),
                style: screen::entry_style(s.router_files[i].valid, i == s.router_index),
            }),
    decreases k,
{
    reveal_with_fuel(AppView::entry_spans, 2);
    if k > 1 {
        let j = (k - 1) as nat;
        lemma_entry_spans(s, names, j);
        let before = s.entry_spans(names, j);
        let all = s.entry_spans(names, k);
        assert forall|i: int| 0 <= i < k implies #[trigger] all[2 * i] == (SpanView {
            text: screen::entry_name(s.router_files, names, i),
            style: screen::entry_style(s.router_files[i].valid, i == s.router_index),
        }) by {
            if i < j {
                assert(all[2 * i] == before[2 * i]);
            }
        }
    }
}

/// With a router table the status line shows all its entries in their order, by
/// the names of their files or else by their paths: an unusable one in red, the
/// active one highlighted in green, and the others in dark gray.
pub proof fn the_status_line_shows_the_entries(
    s: AppView,
    running: bool,
    source_name: Option<Seq<char>>,
    names: Seq<Option<Seq<char>>>,
    i: int,
)
    requires
        0 <= i < s.router_files.len(),
    ensures
        ({
            let spans = s.screen(running, source_name, names)[5].lines[1].spans;
            let span = spans[2 + 2 * i];
            let valid = s.router_files[i].valid;
            let active = i == s.router_index;
            &&& spans.len() == 2 * s.router_files.len() + 1
            &&& span.text == if i < names.len() && names[i] is Some {
                names[i]->0
            } else {
                s.router_files[i].path
            }
            &&& span.style.fg == Some(
                if !valid {
                    Color::Red
                } else if active {
                    Color::Green
                } else {
                    Color::DarkGray
                },
            )
            &&& span.style.bold == (!valid || active)
            &&& span.style.bg is None
        }),
{
    lemma_entry_spans(s, names, s.router_files.len());
    let entries = s.entry_spans(names, s.router_files.len());
    let spans = s.screen(running, source_name, names)[5].lines[1].spans;
    assert(spans[2 + 2 * i] == entries[2 * i]);
}

/// While the execution order has the focus, the panel tells how the selected
/// weapons are gone through; while the execution mode has it, how the hotkey
/// works.
pub proof fn the_focus_is_explained(
    s: AppView,
    running: bool,
    source_name: Option<Seq<char>>,
    names: Seq<Option<Seq<char>>>,
)
    ensures
        ({
            let lines = s.screen(running, source_name, names)[2].lines;
            &&& s.active(5) ==> lines.len() == 3 && lines[2].spans[0].text == match (
                s.cfg.random_execution,
                s.l(),
            ) {
                (true, Lang::Zh) => "[!] 乱序执行模式下将基于所选集合元素打乱随机排列执行"@,
                (true, Lang::En) => "[!] Random-order mode shuffles the selected set elements"@,
                (false, Lang::Zh) => "[!] 正序执行模式下将基于所选集合元素自左向右循环执行"@,
                (false, Lang::En) =>
                    "[!] Sequential mode cycles the selected set elements left-to-right"@,
            }
            &&& s.active(6) ==> lines.len() == 3 && lines[2].spans[0].text == match (
                s.cfg.execution_mode,
                s.l(),
            ) {
                (ExecutionMode::Hold, Lang::Zh) =>
                    "长按模式需要持续按住热键才可执行操作"@,
                (ExecutionMode::Hold, Lang::En) =>
                    "Hold mode requires you to keep holding the hotkey to run"@,
                (ExecutionMode::Toggle, Lang::Zh) =>
                    "切换模式仅需点击热键即可实现启动与停止操作"@,
                (ExecutionMode::Toggle, Lang::En) =>
                    "Toggle mode only takes a tap of the hotkey to start or stop"@,
            }
            &&& !s.active(5) && !s.active(6) ==> lines.len() == 2
        }),
{
}

/// The panels have their titles.
pub proof fn panels_have_their_titles(
    s: AppView,
    running: bool,
    source_name: Option<Seq<char>>,
    names: Seq<Option<Seq<char>>>,
)
    ensures
        ({
            let panels = s.screen(running, source_name, names);
            let en = s.l() == Lang::En;
            &&& panels[0].title is None && panels[5].title is None
            &&& panels[1].title == Some(
                if en {
                    " Key Bindings "@
                } else {
                    " 按键绑定 "@
                },
            )
            &&& panels[2].title == Some(
                if en {
                    " Execution Order "@
                } else {
                    " 执行顺序 "@
                },
            )
            &&& panels[3].title == Some(
                if en {
                    " Timing Config (ms) "@
                } else {
                    " 时间配置(ms) "@
                },
            )
            &&& panels[4].title == Some(
                if en {
                    " Operations "@
                } else {
                    " 操作 "@
                },
            )
        }),
{
}

/// At the top there is the title art, six rows from green over cyan to blue, and
/// below it the address in dark gray.
pub proof fn the_title_is_at_the_top(
    s: AppView,
    running: bool,
    source_name: Option<Seq<char>>,
    names: Seq<Option<Seq<char>>>,
    i: int,
)
    requires
        0 <= i < 7,
    ensures
        ({
            let lines = s.screen(running, source_name, names)[0].lines;
            let span = lines[i].spans[0];
            &&& lines.len() == 7
            &&& lines[i].spans.len() == 1
            &&& i == 0 ==> span.text
                == "  _____               _     _         __        __                         _____           _ "@
            &&& i == 1 ==> span.text
                == " |__  /___  _ __ ___ | |__ (_) ___  __\\ \\      / /__  __ _ _ __   ___  _ _|_   _|__   ___ | |"@
            &&& i == 2 ==> span.text
                == "   / // _ \\| '_ ` _ \\| '_ \\| |/ _ \\/ __\\ \\ /\\ / / _ \\/ _` | '_ \\ / _ \\| '_ \\| |/ _ \\ / _ \\| |"@
            &&& i == 3 ==> span.text
                == "  / /| (_) | | | | | | |_) | |  __/\\__ \\\\ V  V /  __/ (_| | |_) | (_) | | | | | (_) | (_) | |"@
            &&& i == 4 ==> span.text
                == " /____\\___/|_| |_| |_|_.__/|_|\\___||___/ \\_/\\_/  \\__|\\__,_| .__/ \\___/|_| |_|_|\\___/ \\___/|_|"@
            &&& i == 5 ==> span.text
                == "                                                          |_|                                "@
            &&& i == 6 ==> span.text
                == "© GongSunFangYun | https://github.com/GongSunFangYun/ZombiesWeaponTool"@
            &&& lines[i].style.fg == Some(
                if i < 2 {
                    Color::Green
                } else if i < 4 {
                    Color::Cyan
                } else if i < 6 {
                    Color::Blue
                } else {
                    Color::DarkGray
                },
            )
            &&& span.style.fg is None
        }),
{
}

/// The panels are nine, five, five, six, three and three rows high, all but the
/// last in a frame; the last one takes the rest of the screen.
pub proof fn panels_have_their_heights(
    s: AppView,
    running: bool,
    source_name: Option<Seq<char>>,
    names: Seq<Option<Seq<char>>>,
)
    ensures
        ({
            let panels = s.screen(running, source_name, names);
            &&& panels.len() == 6
            &&& panels[0].rows == 9
            &&& panels[1].rows == 5
            &&& panels[2].rows == 5
            &&& panels[3].rows == 6
            &&& panels[4].rows == 3
            &&& panels[5].rows == 3
            &&& forall|i: int|
                0 <= i < 5 ==> (#[trigger] panels[i]).bordered && !panels[i].fills
            &&& !panels[5].bordered && panels[5].fills
        }),
{
}

/// The letters of the execution order, the intervals and the keys are explained
/// below the fields.
pub proof fn the_fields_are_explained(
    s: AppView,
    running: bool,
    source_name: Option<Seq<char>>,
    names: Seq<Option<Seq<char>>>,
)
    ensures
        ({
            let panels = s.screen(running, source_name, names);
            let order = panels[2].lines[1];
            let timing = panels[3].lines[2];
            let keys = panels[5].lines[0];
            &&& panels[1].lines.len() == 2
            &&& panels[3].lines.len() == 3
            &&& panels[4].lines.len() == 1
            &&& panels[5].lines.len() == 2
            &&& order.spans.len() == 1 && timing.spans.len() == 1 && keys.spans.len() == 1
            &&& order.spans[0].text == match s.l() {
                Lang::Zh =>
                    "A=武器槽#1  B=武器槽#2  C=武器槽#3    集合元素示例: A=#1单例  AB=#1+#2轮换  ABC=#1+#2+#3循环"@,
                Lang::En =>
                    "A=Slot#1  B=Slot#2  C=Slot#3    Set examples: A=single#1  AB=#1+#2 alternate  ABC=#1+#2+#3 cycle"@,
            }
            &&& timing.spans[0].text == match s.l() {
                Lang::Zh =>
                    "切换武器间隔: 定时自动切枪 | 射击间隔: 右键连点器 (每个 ±N 随机)"@,
                Lang::En =>
                    "Switch interval: timed auto weapon-switch | Shoot interval: right-click autoclicker (each ±N random)"@,
            }
            &&& keys.spans[0].text == match s.l() {
                Lang::Zh =>
                    "操作: Tab/方向键 移动   Enter 编辑/确认/切换   绑定: 直接按键   执行热键: 开/停循环   Esc 退出"@,
                Lang::En =>
                    "Controls: Tab/Arrows move   Enter edit/confirm/toggle   Bind: press a key   Execution hotkey: start/stop   Esc quit"@,
            }
        }),
{
}

} // verus!
