//! What is shown on the screen.
//!
//! The screen is a column of panels of styled lines. It is put together here;
//! the program around the library only draws it.

use vstd::prelude::*;

use crate::config::ExecutionMode;
use crate::fields;
use crate::fields::FieldKind;
use crate::lang;
use crate::lang::Lang;
use crate::state::{App, AppView, EntryView, Mode, ModeView};
use crate::text;

verus! {

// ---------------------------------------------------------------------------
// Panels, lines and spans
// ---------------------------------------------------------------------------

#[derive(Clone, Copy, PartialEq, Eq, Debug, Structural)]
pub enum Color {
    Green,
    Cyan,
    Blue,
    White,
    Gray,
    DarkGray,
    Yellow,
    Red,
}

/// How a text looks.
#[derive(Clone, Copy, PartialEq, Eq, Debug, Structural)]
pub struct Style {
    pub fg: Option<Color>,
    pub bg: Option<Color>,
    pub bold: bool,
}

/// A text of one style.
#[derive(Debug)]
pub struct Span {
    pub text: String,
    pub style: Style,
}

pub struct SpanView {
    pub text: Seq<char>,
    pub style: Style,
}

impl View for Span {
    type V = SpanView;

    open spec fn view(&self) -> SpanView {
        SpanView { text: self.text@, style: self.style }
    }
}

pub open spec fn span_views(s: Seq<Span>) -> Seq<SpanView> {
    s.map_values(|x: Span| x@)
}

/// A line: its spans, and the style that they are laid over.
#[derive(Debug)]
pub struct Line {
    pub spans: Vec<Span>,
    pub style: Style,
}

pub struct LineView {
    pub spans: Seq<SpanView>,
    pub style: Style,
}

impl View for Line {
    type V = LineView;

    open spec fn view(&self) -> LineView {
        LineView { spans: span_views(self.spans@), style: self.style }
    }
}

pub open spec fn line_views(s: Seq<Line>) -> Seq<LineView> {
    s.map_values(|x: Line| x@)
}

/// A part of the screen: so many rows, or all that are left but at least so
/// many; with a border and a title on it, or without.
#[derive(Debug)]
pub struct Panel {
    pub rows: u16,
    pub fills: bool,
    pub bordered: bool,
    pub title: Option<String>,
    pub lines: Vec<Line>,
}

pub struct PanelView {
    pub rows: u16,
    pub fills: bool,
    pub bordered: bool,
    pub title: Option<Seq<char>>,
    pub lines: Seq<LineView>,
}

impl View for Panel {
    type V = PanelView;

    open spec fn view(&self) -> PanelView {
        PanelView {
            rows: self.rows,
            fills: self.fills,
            bordered: self.bordered,
            title: text::opt_view(self.title),
            lines: line_views(self.lines@),
        }
    }
}

pub open spec fn panel_views(s: Seq<Panel>) -> Seq<PanelView> {
    s.map_values(|x: Panel| x@)
}

/// The style of the terminal.
pub open spec fn plain() -> Style {
    Style { fg: None, bg: None, bold: false }
}

pub open spec fn colored(c: Color) -> Style {
    Style { fg: Some(c), bg: None, bold: false }
}

pub open spec fn strong(c: Color) -> Style {
    Style { fg: Some(c), bg: None, bold: true }
}

fn in_plain() -> (r: Style)
    ensures
        r == plain(),
{
    Style { fg: None, bg: None, bold: false }
}

fn in_color(c: Color) -> (r: Style)
    ensures
        r == colored(c),
{
    Style { fg: Some(c), bg: None, bold: false }
}

fn in_bold(c: Color) -> (r: Style)
    ensures
        r == strong(c),
{
    Style { fg: Some(c), bg: None, bold: true }
}

/// A line of one text.
pub open spec fn text_line(text: Seq<char>, style: Style) -> LineView {
    LineView { spans: seq![SpanView { text, style: plain() }], style }
}

fn make_line(s: &str, style: Style) -> (r: Line)
    ensures
        r@ == text_line(s@, style),
{
    let mut spans: Vec<Span> = Vec::new();
    spans.push(Span { text: s.to_string(), style: in_plain() });
    let r = Line { spans, style };
    proof {
        assert(r@.spans =~= text_line(s@, style).spans);
    }
    r
}

fn push_line(lines: &mut Vec<Line>, line: Line)
    ensures
        line_views(final(lines)@) == line_views(old(lines)@).push(line@),
{
    let ghost before = lines@;
    lines.push(line);
    proof {
        assert(line_views(lines@) =~= line_views(before).push(line@));
    }
}

fn push_span(spans: &mut Vec<Span>, text: String, style: Style)
    ensures
        span_views(final(spans)@) == span_views(old(spans)@).push(SpanView { text: text@, style }),
{
    let ghost before = spans@;
    spans.push(Span { text, style });
    proof {
        assert(span_views(spans@) =~= span_views(before).push(SpanView { text: text@, style }));
    }
}

fn push_panel(
    panels: &mut Vec<Panel>,
    rows: u16,
    title: Option<String>,
    lines: Vec<Line>,
)
    ensures
        panel_views(final(panels)@) == panel_views(old(panels)@).push(
            boxed(rows, text::opt_view(title), line_views(lines@)),
        ),
{
    let ghost before = panels@;
    panels.push(Panel { rows, fills: false, bordered: true, title, lines });
    proof {
        assert(panel_views(panels@) =~= panel_views(before).push(
            boxed(rows, text::opt_view(title), line_views(lines@)),
        ));
    }
}

/// A panel of so many rows with a border.
pub open spec fn boxed(rows: u16, title: Option<Seq<char>>, lines: Seq<LineView>) -> PanelView {
    PanelView { rows, fills: false, bordered: true, title, lines }
}

// ---------------------------------------------------------------------------
// The banner
// ---------------------------------------------------------------------------

/// The rows of the title art.
pub const BANNER_ROWS: usize = 6;

/// A row of the title art.
pub open spec fn banner_text(i: int) -> Seq<char> {
    if i == 0 {
        "  _____               _     _         __        __                         _____           _ "@
    } else if i == 1 {
        " |__  /___  _ __ ___ | |__ (_) ___  __\\ \\      / /__  __ _ _ __   ___  _ _|_   _|__   ___ | |"@
    } else if i == 2 {
        "   / // _ \\| '_ ` _ \\| '_ \\| |/ _ \\/ __\\ \\ /\\ / / _ \\/ _` | '_ \\ / _ \\| '_ \\| |/ _ \\ / _ \\| |"@
    } else if i == 3 {
        "  / /| (_) | | | | | | |_) | |  __/\\__ \\\\ V  V /  __/ (_| | |_) | (_) | | | | | (_) | (_) | |"@
    } else if i == 4 {
        " /____\\___/|_| |_| |_|_.__/|_|\\___||___/ \\_/\\_/  \\__|\\__,_| .__/ \\___/|_| |_|_|\\___/ \\___/|_|"@
    } else {
        "                                                          |_|                                "@
    }
}

fn banner_row(i: usize) -> (r: &'static str)
    ensures
        r@ == banner_text(i as int),
{
    if i == 0 {
        "  _____               _     _         __        __                         _____           _ "
    } else if i == 1 {
        " |__  /___  _ __ ___ | |__ (_) ___  __\\ \\      / /__  __ _ _ __   ___  _ _|_   _|__   ___ | |"
    } else if i == 2 {
        "   / // _ \\| '_ ` _ \\| '_ \\| |/ _ \\/ __\\ \\ /\\ / / _ \\/ _` | '_ \\ / _ \\| '_ \\| |/ _ \\ / _ \\| |"
    } else if i == 3 {
        "  / /| (_) | | | | | | |_) | |  __/\\__ \\\\ V  V /  __/ (_| | |_) | (_) | | | | | (_) | (_) | |"
    } else if i == 4 {
        " /____\\___/|_| |_| |_|_.__/|_|\\___||___/ \\_/\\_/  \\__|\\__,_| .__/ \\___/|_| |_|_|\\___/ \\___/|_|"
    } else {
        "                                                          |_|                                "
    }
}

/// The colours of the title art, from green to blue.
pub open spec fn banner_color(i: int) -> Color {
    if i <= 1 {
        Color::Green
    } else if i <= 3 {
        Color::Cyan
    } else {
        Color::Blue
    }
}

fn color_of_row(i: usize) -> (r: Color)
    ensures
        r == banner_color(i as int),
{
    if i <= 1 {
        Color::Green
    } else if i <= 3 {
        Color::Cyan
    } else {
        Color::Blue
    }
}

/// The address below the title art.
pub open spec fn top_bar() -> Seq<char> {
    "© GongSunFangYun | https://github.com/GongSunFangYun/ZombiesWeaponTool"@
}

/// The address below the title art.
pub fn top_bar_text() -> (r: &'static str)
    ensures
        r@ == top_bar(),
{
    "© GongSunFangYun | https://github.com/GongSunFangYun/ZombiesWeaponTool"
}

pub open spec fn art_lines() -> Seq<LineView> {
    Seq::new(
        BANNER_ROWS as nat,
        |i: int| text_line(banner_text(i), colored(banner_color(i))),
    )
}

pub open spec fn banner_lines() -> Seq<LineView> {
    art_lines().push(text_line(top_bar(), colored(Color::DarkGray)))
}

fn make_banner() -> (r: Vec<Line>)
    ensures
        line_views(r@) == banner_lines(),
{
    let mut lines: Vec<Line> = Vec::new();
    let mut i: usize = 0;
    proof {
        assert(line_views(lines@) =~= art_lines().take(0));
    }
    while i < BANNER_ROWS
        invariant
            i <= BANNER_ROWS,
            line_views(lines@) == art_lines().take(i as int),
        decreases BANNER_ROWS - i,
    {
        push_line(&mut lines, make_line(banner_row(i), in_color(color_of_row(i))));
        proof {
            assert(art_lines().take(i + 1) =~= art_lines().take(i as int).push(
                art_lines()[i as int],
            ));
        }
        i = i + 1;
    }
    proof {
        assert(art_lines().take(i as int) =~= art_lines());
    }
    push_line(&mut lines, make_line(top_bar_text(), in_color(Color::DarkGray)));
    lines
}

// ---------------------------------------------------------------------------
// Fields
// ---------------------------------------------------------------------------

impl AppView {
    /// The field is the one that the keys go to.
    pub open spec fn active(self, fi: usize) -> bool {
        match self.mode {
            ModeView::Normal => self.focus == fi,
            ModeView::Capture { field } => field == fi,
            ModeView::Edit { field, buf } => field == fi,
            ModeView::OrderEdit { field, buf } => field == fi,
        }
    }

    /// A binding for the field is being captured.
    pub open spec fn capturing(self, fi: usize) -> bool {
        self.mode == (ModeView::Capture { field: fi })
    }

    /// What the field shows: its value, or what is being entered, followed by a
    /// cursor.
    pub open spec fn shown_value(self, fi: usize) -> Seq<char> {
        let value = fields::value_of(self.l(), self.cfg, fi);
        match fields::kind_of(fi) {
            FieldKind::Binding => if self.capturing(fi) {
                lang::pick(
                    self.l(),
                    "按下一个按键或鼠标键..."@,
                    "Press a key or mouse button..."@,
                )
            } else if value.len() == 0 {
                lang::pick(self.l(), "未绑定"@, "Unbound"@)
            } else {
                value
            },
            FieldKind::Number => {
                let entered = match self.mode {
                    ModeView::Edit { field, buf } => if field == fi {
                        buf + "▌"@
                    } else {
                        value
                    },
                    _ => value,
                };
                if fields::is_offset(fi) {
                    "±"@ + entered
                } else {
                    entered
                }
            },
            FieldKind::Order => match self.mode {
                ModeView::OrderEdit { field, buf } => if field == fi {
                    buf + "▌"@
                } else {
                    value
                },
                _ => value,
            },
            _ => value,
        }
    }

    /// The text of a field: its name and what it shows; an action in brackets.
    pub open spec fn field_text(self, fi: usize) -> Seq<char> {
        let label = fields::label_of(self.l(), fi);
        if fields::kind_of(fi) == FieldKind::Action {
            "[ "@ + label + " ]"@
        } else {
            label + ": "@ + self.shown_value(fi)
        }
    }

    pub open spec fn field_style(self, fi: usize) -> Style {
        if self.active(fi) {
            Style { fg: Some(Color::White), bg: Some(Color::Blue), bold: true }
        } else {
            colored(Color::Gray)
        }
    }

    pub open spec fn field_view(self, fi: usize) -> SpanView {
        SpanView { text: self.field_text(fi), style: self.field_style(fi) }
    }

    /// The fields of a row, with a gap between neighbours.
    pub open spec fn row_spans(self, row: Seq<usize>) -> Seq<SpanView>
        decreases row.len(),
    {
        if row.len() == 0 {
            seq![]
        } else if row.len() == 1 {
            seq![self.field_view(row[0])]
        } else {
            self.row_spans(row.drop_last()).push(
                SpanView { text: "    "@, style: plain() },
            ).push(self.field_view(row.last()))
        }
    }

    pub open spec fn row_line(self, row: int) -> LineView {
        LineView { spans: self.row_spans(fields::row_fields(row)), style: plain() }
    }
}

impl App {
    /// Tells whether the keys go to the field.
    pub fn is_active(&self, fi: usize) -> (r: bool)
        ensures
            r == self@.active(fi),
    {
        match &self.mode {
            Mode::Normal => self.focus == fi,
            Mode::Capture { field } => *field == fi,
            Mode::Edit { field, buf } => *field == fi,
            Mode::OrderEdit { field, buf } => *field == fi,
        }
    }

    /// Tells whether a binding for the field is being captured.
    pub fn is_capture(&self, fi: usize) -> (r: bool)
        ensures
            r == self@.capturing(fi),
    {
        match &self.mode {
            Mode::Capture { field } => *field == fi,
            _ => false,
        }
    }

    fn make_value(&self, fi: usize, value: String, kind: FieldKind) -> (r: String)
        requires
            value@ == fields::value_of(self@.l(), self@.cfg, fi),
            kind == fields::kind_of(fi),
        ensures
            r@ == self@.shown_value(fi),
    {
        let l = self.language();
        match kind {
            FieldKind::Binding => {
                if self.is_capture(fi) {
                    lang::tr(
                        l,
                        "按下一个按键或鼠标键...",
                        "Press a key or mouse button...",
                    ).to_string()
                } else if value.as_str().is_empty() {
                    lang::tr(l, "未绑定", "Unbound").to_string()
                } else {
                    value
                }
            },
            FieldKind::Number => {
                let entered = match &self.mode {
                    Mode::Edit { field, buf } => if *field == fi {
                        text::concat(buf.as_str(), "▌")
                    } else {
                        value
                    },
                    _ => value,
                };
                if fields::is_offset_field(fi) {
                    text::concat("±", entered.as_str())
                } else {
                    entered
                }
            },
            FieldKind::Order => match &self.mode {
                Mode::OrderEdit { field, buf } => if *field == fi {
                    text::concat(buf.as_str(), "▌")
                } else {
                    value
                },
                _ => value,
            },
            _ => value,
        }
    }

    /// The text of a field with its style.
    pub fn field_span(&self, fi: usize) -> (r: Span)
        requires
            fi < fields::TOTAL_FIELDS,
        ensures
            r@ == self@.field_view(fi),
    {
        let style = if self.is_active(fi) {
            Style { fg: Some(Color::White), bg: Some(Color::Blue), bold: true }
        } else {
            in_color(Color::Gray)
        };
        let (label, value, kind) = fields::field(self.language(), &self.cfg, fi);
        let text = if kind == FieldKind::Action {
            text::concat(text::concat("[ ", label).as_str(), " ]")
        } else {
            let shown = self.make_value(fi, value, kind);
            text::concat(text::concat(label, ": ").as_str(), shown.as_str())
        };
        Span { text, style }
    }

    fn make_row(&self, row: usize) -> (r: Line)
        requires
            row < fields::TOTAL_ROWS,
        ensures
            r@ == self@.row_line(row as int),
    {
        let members = fields::fields_of_row(row);
        let ghost all = fields::row_fields(row as int);
        let mut spans: Vec<Span> = Vec::new();
        let mut i: usize = 0;
        proof {
            assert(span_views(spans@) =~= self@.row_spans(all.take(0)));
        }
        while i < members.len()
            invariant
                i <= members@.len(),
                row < fields::TOTAL_ROWS,
                members@ == all,
                all == fields::row_fields(row as int),
                span_views(spans@) == self@.row_spans(all.take(i as int)),
            decreases members@.len() - i,
        {
            proof {
                assert(all.take(i + 1).drop_last() =~= all.take(i as int));
                assert(all.take(i + 1).last() == all[i as int]);
                assert(all[i as int] < fields::TOTAL_FIELDS);
            }
            if i > 0 {
                push_span(&mut spans, "    ".to_string(), in_plain());
            }
            let ghost before = span_views(spans@);
            let span = self.field_span(members[i]);
            push_span(&mut spans, span.text, span.style);
            proof {
                if i == 0 {
                    assert(all.take(1).len() == 1);
                    assert(span_views(spans@) =~= seq![self@.field_view(all[0])]);
                }
            }
            i = i + 1;
        }
        proof {
            assert(all.take(i as int) =~= all);
        }
        Line { spans, style: in_plain() }
    }
}

// ---------------------------------------------------------------------------
// Panels
// ---------------------------------------------------------------------------

/// What is told below the execution order while it has the focus.
pub open spec fn order_note(l: Lang, random: bool) -> Seq<char> {
    if random {
        lang::pick(
            l,
            "[!] 乱序执行模式下将基于所选集合元素打乱随机排列执行"@,
            "[!] Random-order mode shuffles the selected set elements"@,
        )
    } else {
        lang::pick(
            l,
            "[!] 正序执行模式下将基于所选集合元素自左向右循环执行"@,
            "[!] Sequential mode cycles the selected set elements left-to-right"@,
        )
    }
}

/// What is told below the execution mode while it has the focus.
pub open spec fn mode_note(l: Lang, mode: ExecutionMode) -> Seq<char> {
    match mode {
        ExecutionMode::Hold => lang::pick(
            l,
            "长按模式需要持续按住热键才可执行操作"@,
            "Hold mode requires you to keep holding the hotkey to run"@,
        ),
        ExecutionMode::Toggle => lang::pick(
            l,
            "切换模式仅需点击热键即可实现启动与停止操作"@,
            "Toggle mode only takes a tap of the hotkey to start or stop"@,
        ),
    }
}

/// The name that an entry of the router table is shown with: that of its file,
/// or its path where that has none.
pub open spec fn entry_name(
    files: Seq<EntryView>,
    names: Seq<Option<Seq<char>>>,
    i: int,
) -> Seq<char> {
    if i < names.len() {
        match names[i] {
            Some(n) => n,
            None => files[i].path,
        }
    } else {
        files[i].path
    }
}

/// The style of an entry: red where it cannot be used, highlighted where it is
/// the active one.
pub open spec fn entry_style(valid: bool, active: bool) -> Style {
    if !valid {
        strong(Color::Red)
    } else if active {
        strong(Color::Green)
    } else {
        colored(Color::DarkGray)
    }
}

pub open spec fn name_views(names: Seq<Option<String>>) -> Seq<Option<Seq<char>>> {
    names.map_values(|n: Option<String>| text::opt_view(n))
}

impl AppView {
    pub open spec fn order_lines(self) -> Seq<LineView> {
        let base = seq![
            self.row_line(2),
            text_line(
                lang::pick(
                    self.l(),
                    "A=武器槽#1  B=武器槽#2  C=武器槽#3    集合元素示例: A=#1单例  AB=#1+#2轮换  ABC=#1+#2+#3循环"@,
                    "A=Slot#1  B=Slot#2  C=Slot#3    Set examples: A=single#1  AB=#1+#2 alternate  ABC=#1+#2+#3 cycle"@,
                ),
                colored(Color::DarkGray),
            ),
        ];
        if self.active(fields::F_ORDER) {
            base.push(
                text_line(
                    order_note(self.l(), self.cfg.random_execution),
                    strong(Color::Yellow),
                ),
            )
        } else if self.active(fields::F_MODE) {
            base.push(
                text_line(mode_note(self.l(), self.cfg.execution_mode), strong(Color::Yellow)),
            )
        } else {
            base
        }
    }

    pub open spec fn timing_lines(self) -> Seq<LineView> {
        seq![
            self.row_line(3),
            self.row_line(4),
            text_line(
                lang::pick(
                    self.l(),
                    "切换武器间隔: 定时自动切枪 | 射击间隔: 右键连点器 (每个 ±N 随机)"@,
                    "Switch interval: timed auto weapon-switch | Shoot interval: right-click autoclicker (each ±N random)"@,
                ),
                colored(Color::DarkGray),
            ),
        ]
    }

    /// The first `k` entries of the router table, with bars between them.
    pub open spec fn entry_spans(self, names: Seq<Option<Seq<char>>>, k: nat) -> Seq<SpanView>
        decreases k,
    {
        if k == 0 {
            seq![]
        } else {
            let i = k - 1;
            let before = self.entry_spans(names, i as nat);
            let parted = if i > 0 {
                before.push(SpanView { text: " | "@, style: colored(Color::DarkGray) })
            } else {
                before
            };
            parted.push(
                SpanView {
                    text: entry_name(self.router_files, names, i),
                    style: entry_style(self.router_files[i].valid, i == self.router_index),
                },
            )
        }
    }

    /// The state of the engine, and the configuration or the router table.
    pub open spec fn status_spans(
        self,
        running: bool,
        source_name: Option<Seq<char>>,
        names: Seq<Option<Seq<char>>>,
    ) -> Seq<SpanView> {
        let state = if running {
            SpanView {
                text: lang::pick(self.l(), "● 执行中"@, "● Executing"@),
                style: strong(Color::Green),
            }
        } else {
            SpanView {
                text: lang::pick(self.l(), "○ 已停止"@, "○ Stopped"@),
                style: strong(Color::DarkGray),
            }
        };
        if self.router_files.len() == 0 {
            seq![
                state,
                SpanView {
                    text: lang::pick(self.l(), " | 配置文件: "@, " | Config: "@),
                    style: colored(Color::DarkGray),
                },
                SpanView {
                    text: match source_name {
                        Some(n) => n,
                        None => lang::pick(self.l(), "默认配置"@, "default config"@),
                    },
                    style: colored(Color::White),
                },
            ]
        } else {
            seq![
                state,
                SpanView {
                    text: lang::pick(self.l(), " | 路由: "@, " | Router: "@),
                    style: colored(Color::DarkGray),
                },
            ] + self.entry_spans(names, self.router_files.len())
        }
    }

    pub open spec fn help_lines(
        self,
        running: bool,
        source_name: Option<Seq<char>>,
        names: Seq<Option<Seq<char>>>,
    ) -> Seq<LineView> {
        seq![
            text_line(
                lang::pick(
                    self.l(),
                    "操作: Tab/方向键 移动   Enter 编辑/确认/切换   绑定: 直接按键   执行热键: 开/停循环   Esc 退出"@,
                    "Controls: Tab/Arrows move   Enter edit/confirm/toggle   Bind: press a key   Execution hotkey: start/stop   Esc quit"@,
                ),
                colored(Color::DarkGray),
            ),
            LineView {
                spans: self.status_spans(running, source_name, names),
                style: plain(),
            },
        ]
    }

    /// The whole screen, from top to bottom.
    pub open spec fn screen(
        self,
        running: bool,
        source_name: Option<Seq<char>>,
        names: Seq<Option<Seq<char>>>,
    ) -> Seq<PanelView> {
        let l = self.l();
        seq![
            boxed(9, None, banner_lines()),
            boxed(
                5,
                Some(lang::pick(l, " 按键绑定 "@, " Key Bindings "@)),
                seq![self.row_line(0), self.row_line(1)],
            ),
            boxed(
                5,
                Some(lang::pick(l, " 执行顺序 "@, " Execution Order "@)),
                self.order_lines(),
            ),
            boxed(
                6,
                Some(lang::pick(l, " 时间配置(ms) "@, " Timing Config (ms) "@)),
                self.timing_lines(),
            ),
            boxed(3, Some(lang::pick(l, " 操作 "@, " Operations "@)), seq![self.row_line(5)]),
            PanelView {
                rows: 3,
                fills: true,
                bordered: false,
                title: None,
                lines: self.help_lines(running, source_name, names),
            },
        ]
    }
}

fn order_note_text(l: Lang, random: bool) -> (r: &'static str)
    ensures
        r@ == order_note(l, random),
{
    if random {
        lang::tr(
            l,
            "[!] 乱序执行模式下将基于所选集合元素打乱随机排列执行",
            "[!] Random-order mode shuffles the selected set elements",
        )
    } else {
        lang::tr(
            l,
            "[!] 正序执行模式下将基于所选集合元素自左向右循环执行",
            "[!] Sequential mode cycles the selected set elements left-to-right",
        )
    }
}

fn mode_note_text(l: Lang, mode: ExecutionMode) -> (r: &'static str)
    ensures
        r@ == mode_note(l, mode),
{
    match mode {
        ExecutionMode::Hold => lang::tr(
            l,
            "长按模式需要持续按住热键才可执行操作",
            "Hold mode requires you to keep holding the hotkey to run",
        ),
        ExecutionMode::Toggle => lang::tr(
            l,
            "切换模式仅需点击热键即可实现启动与停止操作",
            "Toggle mode only takes a tap of the hotkey to start or stop",
        ),
    }
}

impl App {
    fn make_order(&self) -> (r: Vec<Line>)
        ensures
            line_views(r@) == self@.order_lines(),
    {
        let l = self.language();
        let mut lines: Vec<Line> = Vec::new();
        push_line(&mut lines, self.make_row(2));
        push_line(
            &mut lines,
            make_line(
                lang::tr(
                    l,
                    "A=武器槽#1  B=武器槽#2  C=武器槽#3    集合元素示例: A=#1单例  AB=#1+#2轮换  ABC=#1+#2+#3循环",
                    "A=Slot#1  B=Slot#2  C=Slot#3    Set examples: A=single#1  AB=#1+#2 alternate  ABC=#1+#2+#3 cycle",
                ),
                in_color(Color::DarkGray),
            ),
        );
        if self.is_active(fields::F_ORDER) {
            push_line(
                &mut lines,
                make_line(order_note_text(l, self.cfg.random_execution), in_bold(Color::Yellow)),
            );
        } else if self.is_active(fields::F_MODE) {
            push_line(
                &mut lines,
                make_line(mode_note_text(l, self.cfg.execution_mode), in_bold(Color::Yellow)),
            );
        }
        proof {
            assert(line_views(lines@) =~= self@.order_lines());
        }
        lines
    }

    fn make_timing(&self) -> (r: Vec<Line>)
        ensures
            line_views(r@) == self@.timing_lines(),
    {
        let l = self.language();
        let mut lines: Vec<Line> = Vec::new();
        push_line(&mut lines, self.make_row(3));
        push_line(&mut lines, self.make_row(4));
        push_line(
            &mut lines,
            make_line(
                lang::tr(
                    l,
                    "切换武器间隔: 定时自动切枪 | 射击间隔: 右键连点器 (每个 ±N 随机)",
                    "Switch interval: timed auto weapon-switch | Shoot interval: right-click autoclicker (each ±N random)",
                ),
                in_color(Color::DarkGray),
            ),
        );
        proof {
            assert(line_views(lines@) =~= self@.timing_lines());
        }
        lines
    }

    fn name_of_entry(&self, names: &Vec<Option<String>>, i: usize) -> (r: String)
        requires
            i < self@.router_files.len(),
        ensures
            r@ == entry_name(self@.router_files, name_views(names@), i as int),
    {
        proof {
            assert(self@.router_files[i as int] == self.router_files@[i as int]@);
        }
        if i < names.len() {
            proof {
                assert(name_views(names@)[i as int] == text::opt_view(names@[i as int]));
            }
            if let Some(n) = &names[i] {
                return n.clone();
            }
        }
        self.router_files[i].path.clone()
    }

    fn push_entries(&self, spans: &mut Vec<Span>, names: &Vec<Option<String>>)
        ensures
            span_views(final(spans)@) == span_views(old(spans)@) + self@.entry_spans(
                name_views(names@),
                self@.router_files.len(),
            ),
    {
        let ghost before = span_views(spans@);
        let ghost shown = name_views(names@);
        let mut i: usize = 0;
        proof {
            assert(before + self@.entry_spans(shown, 0) =~= before);
        }
        while i < self.router_files.len()
            invariant
                i <= self.router_files@.len(),
                shown == name_views(names@),
                self@.router_files.len() == self.router_files@.len(),
                span_views(spans@) == before + self@.entry_spans(shown, i as nat),
            decreases self.router_files@.len() - i,
        {
            if i > 0 {
                push_span(spans, " | ".to_string(), in_color(Color::DarkGray));
            }
            proof {
                assert(self@.router_files[i as int] == self.router_files@[i as int]@);
            }
            let style = if !self.router_files[i].valid {
                in_bold(Color::Red)
            } else if i == self.router_index {
                in_bold(Color::Green)
            } else {
                in_color(Color::DarkGray)
            };
            let name = self.name_of_entry(names, i);
            push_span(spans, name, style);
            proof {
                assert(span_views(spans@) =~= before + self@.entry_spans(shown, (i + 1) as nat));
            }
            i = i + 1;
        }
    }

    fn make_status(
        &self,
        running: bool,
        source_name: Option<String>,
        names: &Vec<Option<String>>,
    ) -> (r: Vec<Span>)
        ensures
            span_views(r@) == self@.status_spans(
                running,
                text::opt_view(source_name),
                name_views(names@),
            ),
    {
        let l = self.language();
        let mut spans: Vec<Span> = Vec::new();
        if running {
            push_span(
                &mut spans,
                lang::tr(l, "● 执行中", "● Executing").to_string(),
                in_bold(Color::Green),
            );
        } else {
            push_span(
                &mut spans,
                lang::tr(l, "○ 已停止", "○ Stopped").to_string(),
                in_bold(Color::DarkGray),
            );
        }
        if self.router_files.len() == 0 {
            push_span(
                &mut spans,
                lang::tr(l, " | 配置文件: ", " | Config: ").to_string(),
                in_color(Color::DarkGray),
            );
            let name = match source_name {
                Some(n) => n,
                None => lang::tr(l, "默认配置", "default config").to_string(),
            };
            push_span(&mut spans, name, in_color(Color::White));
        } else {
            push_span(
                &mut spans,
                lang::tr(l, " | 路由: ", " | Router: ").to_string(),
                in_color(Color::DarkGray),
            );
            self.push_entries(&mut spans, names);
        }
        proof {
            assert(span_views(spans@) =~= self@.status_spans(
                running,
                text::opt_view(source_name),
                name_views(names@),
            ));
        }
        spans
    }

    fn make_help(
        &self,
        running: bool,
        source_name: Option<String>,
        names: &Vec<Option<String>>,
    ) -> (r: Vec<Line>)
        ensures
            line_views(r@) == self@.help_lines(
                running,
                text::opt_view(source_name),
                name_views(names@),
            ),
    {
        let l = self.language();
        let mut lines: Vec<Line> = Vec::new();
        push_line(
            &mut lines,
            make_line(
                lang::tr(
                    l,
                    "操作: Tab/方向键 移动   Enter 编辑/确认/切换   绑定: 直接按键   执行热键: 开/停循环   Esc 退出",
                    "Controls: Tab/Arrows move   Enter edit/confirm/toggle   Bind: press a key   Execution hotkey: start/stop   Esc quit",
                ),
                in_color(Color::DarkGray),
            ),
        );
        let spans = self.make_status(running, source_name, names);
        push_line(&mut lines, Line { spans, style: in_plain() });
        proof {
            assert(line_views(lines@) =~= self@.help_lines(
                running,
                text::opt_view(source_name),
                name_views(names@),
            ));
        }
        lines
    }

    /// Puts the screen together: `source_name` is the file name of the active
    /// configuration, and `names` are those of the entries of the router table.
    pub fn ui(
        &self,
        running: bool,
        source_name: Option<String>,
        names: &Vec<Option<String>>,
    ) -> (r: Vec<Panel>)
        ensures
            panel_views(r@) == self@.screen(
                running,
                text::opt_view(source_name),
                name_views(names@),
            ),
    {
        let l = self.language();
        let mut panels: Vec<Panel> = Vec::new();
        push_panel(&mut panels, 9, None, make_banner());
        let mut bindings: Vec<Line> = Vec::new();
        push_line(&mut bindings, self.make_row(0));
        push_line(&mut bindings, self.make_row(1));
        proof {
            assert(line_views(bindings@) =~= seq![self@.row_line(0), self@.row_line(1)]);
        }
        push_panel(
            &mut panels,
            5,
            Some(lang::tr(l, " 按键绑定 ", " Key Bindings ").to_string()),
            bindings,
        );
        push_panel(
            &mut panels,
            5,
            Some(lang::tr(l, " 执行顺序 ", " Execution Order ").to_string()),
            self.make_order(),
        );
        push_panel(
            &mut panels,
            6,
            Some(lang::tr(l, " 时间配置(ms) ", " Timing Config (ms) ").to_string()),
            self.make_timing(),
        );
        let mut actions: Vec<Line> = Vec::new();
        push_line(&mut actions, self.make_row(5));
        proof {
            assert(line_views(actions@) =~= seq![self@.row_line(5)]);
        }
        push_panel(
            &mut panels,
            3,
            Some(lang::tr(l, " 操作 ", " Operations ").to_string()),
            actions,
        );
        let help = self.make_help(running, source_name, names);
        let ghost before = panels@;
        let last = Panel { rows: 3, fills: true, bordered: false, title: None, lines: help };
        panels.push(last);
        proof {
            assert(panel_views(panels@) =~= panel_views(before).push(last@));
            assert(panel_views(panels@) =~= self@.screen(
                running,
                text::opt_view(source_name),
                name_views(names@),
            ));
        }
        panels
    }
}

// ---------------------------------------------------------------------------
// Laws
// ---------------------------------------------------------------------------

/// Exactly one field is highlighted at any time.
pub proof fn one_field_is_active(s: AppView)
    requires
        s.wf(),
    ensures
        exists|fi: usize| fi < fields::TOTAL_FIELDS && #[trigger] s.active(fi),
        forall|a: usize, b: usize| #[trigger] s.active(a) && #[trigger] s.active(b) ==> a == b,
{
    let fi = match s.mode {
        ModeView::Normal => s.focus,
        ModeView::Capture { field } => field,
        ModeView::Edit { field, buf } => field,
        ModeView::OrderEdit { field, buf } => field,
    };
    assert(s.active(fi));
}

/// An entry that cannot be used is red, and no other one is.
pub proof fn unusable_entries_are_red(valid: bool, active: bool)
    ensures
        entry_style(valid, active).fg == Some(Color::Red) <==> !valid,
{
}

} // verus!
