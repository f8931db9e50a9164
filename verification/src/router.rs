//! The router table: a short YAML file that lists configuration files, through
//! which the quick-switch hotkey cycles.
//!
//! The format is fixed: a key `config:` with a block list, a list in square
//! brackets or a single value. Blank lines and comments are ignored; anything
//! else is an error, and the file is not loaded. Each entry remembers its line,
//! so that a comment can be put above the entries that cannot be used.

use vstd::prelude::*;

use crate::lang;
use crate::lang::Lang;
use crate::text;

verus! {

/// An entry: the name of a configuration file, and the line on which it stands
/// (counted from zero).
#[derive(Debug)]
pub struct RouterItem {
    pub name: String,
    pub line: usize,
}

/// What an entry holds.
pub struct ItemView {
    pub name: Seq<char>,
    pub line: nat,
}

impl View for RouterItem {
    type V = ItemView;

    open spec fn view(&self) -> ItemView {
        ItemView { name: self.name@, line: self.line as nat }
    }
}

pub open spec fn item_views(s: Seq<RouterItem>) -> Seq<ItemView> {
    s.map_values(|i: RouterItem| i@)
}

/// Why a file is no router table; lines are counted from one.
pub enum RouterFault {
    /// The key `config` stands there twice.
    SecondKey { line: nat },
    /// A list in square brackets is not closed.
    Unclosed { line: nat },
    /// A line of the block list is no list item.
    NoItem { line: nat, text: Seq<char> },
    /// A line belongs to nothing.
    Unknown { line: nat, text: Seq<char> },
    /// There is no entry.
    NoEntry,
}

/// What is shown for a fault.
pub open spec fn fault_text(l: Lang, f: RouterFault) -> Seq<char> {
    match f {
        RouterFault::SecondKey { line } => lang::message(
            l,
            "第 {} 行: 出现重复的 config 键"@,
            "line {}: duplicate config key"@,
            seq![text::decimal(line)],
        ),
        RouterFault::Unclosed { line } => lang::message(
            l,
            "第 {} 行: 流式列表未闭合 (缺少 ])"@,
            "line {}: inline list not closed (missing ])"@,
            seq![text::decimal(line)],
        ),
        RouterFault::NoItem { line, text } => lang::message(
            l,
            "第 {} 行: config 列表中出现非列表项 {}"@,
            "line {}: non-list item in config list {}"@,
            seq![text::decimal(line), text],
        ),
        RouterFault::Unknown { line, text } => lang::message(
            l,
            "第 {} 行: 无法识别的配置 {}，预期为 config 文件列表"@,
            "line {}: unrecognized config {}, expected a config file list"@,
            seq![text::decimal(line), text],
        ),
        RouterFault::NoEntry => lang::pick(
            l,
            "config 文件列表为空"@,
            "config file list is empty"@,
        ),
    }
}

// ---------------------------------------------------------------------------
// Parsing
// ---------------------------------------------------------------------------

/// `t` stands between two of the given marks.
pub open spec fn quoted(t: Seq<char>, mark: char) -> bool {
    t.len() >= 2 && t[0] == mark && t.last() == mark
}

/// `s` without the white space around it and without the quotes around that.
pub open spec fn cleaned(s: Seq<char>) -> Seq<char> {
    let t = text::trim(s);
    if quoted(t, '"') || quoted(t, '\'') {
        t.subrange(1, t.len() - 1)
    } else {
        t
    }
}

/// The entry that a name gives: none where it is empty.
pub open spec fn entry(name: Seq<char>, line: nat) -> Seq<ItemView> {
    if name.len() == 0 {
        seq![]
    } else {
        seq![ItemView { name, line }]
    }
}

/// The entries that the names of a list give.
pub open spec fn entries(names: Seq<Seq<char>>, line: nat) -> Seq<ItemView>
    decreases names.len(),
{
    if names.len() == 0 {
        seq![]
    } else {
        entries(names.drop_last(), line) + entry(cleaned(names.last()), line)
    }
}

/// How far a table has been read: the entries so far, whether the key was
/// there, and whether its block list is still going on.
pub struct Reading {
    pub items: Seq<ItemView>,
    pub saw_config: bool,
    pub in_config: bool,
}

/// What follows the key on its line.
pub open spec fn after_key(
    st: Reading,
    rest: Seq<char>,
    line: nat,
) -> Result<Reading, RouterFault> {
    if rest.len() == 0 {
        Ok(Reading { items: st.items, saw_config: true, in_config: true })
    } else if rest[0] == '[' {
        if rest.last() != ']' {
            Err(RouterFault::Unclosed { line: line + 1 })
        } else {
            let names = text::split(rest.subrange(1, rest.len() - 1), ',');
            Ok(
                Reading {
                    items: st.items + entries(names, line),
                    saw_config: true,
                    in_config: false,
                },
            )
        }
    } else {
        Ok(
            Reading {
                items: st.items + entry(cleaned(rest), line),
                saw_config: true,
                in_config: false,
            },
        )
    }
}

/// What a line that is neither blank nor a comment does.
pub open spec fn significant(st: Reading, t: Seq<char>, line: nat) -> Result<Reading, RouterFault> {
    if text::starts_with(t, "config:"@) {
        if st.saw_config {
            Err(RouterFault::SecondKey { line: line + 1 })
        } else {
            after_key(st, text::trim(t.skip("config:"@.len() as int)), line)
        }
    } else if !st.in_config {
        Err(RouterFault::Unknown { line: line + 1, text: t })
    } else if t[0] == '-' {
        Ok(Reading { items: st.items + entry(cleaned(item_text(t)), line), ..st })
    } else {
        Err(RouterFault::NoItem { line: line + 1, text: t })
    }
}

/// What stands behind the dash of a list item; further dashes belong to it
/// only where the first one is followed by a space.
pub open spec fn item_text(t: Seq<char>) -> Seq<char> {
    if text::starts_with(t, "- "@) {
        t.skip("- "@.len() as int)
    } else {
        text::trim_dashes(t)
    }
}

/// A line that is blank or a comment.
pub open spec fn is_ignored(t: Seq<char>) -> bool {
    t.len() == 0 || t[0] == '#'
}

/// What a line does.
pub open spec fn line_read(st: Reading, raw: Seq<char>, line: nat) -> Result<Reading, RouterFault> {
    let t = text::trim(raw);
    if is_ignored(t) {
        Ok(st)
    } else {
        significant(st, t, line)
    }
}

/// How far the given lines lead.
pub open spec fn read_lines(lines: Seq<Seq<char>>) -> Result<Reading, RouterFault>
    decreases lines.len(),
{
    if lines.len() == 0 {
        Ok(Reading { items: seq![], saw_config: false, in_config: false })
    } else {
        match read_lines(lines.drop_last()) {
            Err(f) => Err(f),
            Ok(st) => line_read(st, lines.last(), (lines.len() - 1) as nat),
        }
    }
}

/// The entries of a router table, or what is wrong with it.
pub open spec fn table(s: Seq<char>) -> Result<Seq<ItemView>, RouterFault> {
    match read_lines(text::lines(s)) {
        Err(f) => Err(f),
        Ok(st) => if st.items.len() == 0 {
            Err(RouterFault::NoEntry)
        } else {
            Ok(st.items)
        },
    }
}

/// Strips the white space and the quotes around a name.
fn clean(s: &str) -> (r: String)
    ensures
        r@ == cleaned(s@),
{
    let t = text::trimmed(s);
    let v = text::chars_of(t.as_str());
    let n: usize = v.len();
    if n >= 2 && (v[0] == '"' && v[n - 1] == '"' || v[0] == '\'' && v[n - 1] == '\'') {
        text::string_of(&v, 1, n - 1)
    } else {
        t
    }
}

fn push_entry(items: &mut Vec<RouterItem>, name: String, line: usize)
    ensures
        item_views(final(items)@) == item_views(old(items)@) + entry(name@, line as nat),
{
    let ghost before = items@;
    if !name.as_str().is_empty() {
        items.push(RouterItem { name, line });
        proof {
            assert(item_views(items@) =~= item_views(before) + entry(name@, line as nat));
        }
    } else {
        proof {
            assert(item_views(items@) =~= item_views(before) + entry(name@, line as nat));
        }
    }
}

fn push_entries(items: &mut Vec<RouterItem>, list: &str, line: usize)
    ensures
        item_views(final(items)@) == item_views(old(items)@) + entries(
            text::split(list@, ','),
            line as nat,
        ),
{
    let names = text::pieces(list, ',');
    let ghost all = text::views(names@);
    let ghost before = item_views(items@);
    let mut i: usize = 0;
    proof {
        assert(before + entries(all.take(0), line as nat) =~= before);
    }
    while i < names.len()
        invariant
            i <= names@.len(),
            all == text::views(names@),
            item_views(items@) == before + entries(all.take(i as int), line as nat),
        decreases names@.len() - i,
    {
        let name = clean(names[i].as_str());
        proof {
            assert(all.take(i + 1).drop_last() =~= all.take(i as int));
            assert(all.take(i + 1).last() == names@[i as int]@);
        }
        push_entry(items, name, line);
        proof {
            assert(item_views(items@) =~= before + entries(all.take(i + 1), line as nat));
        }
        i = i + 1;
    }
    proof {
        assert(all.take(i as int) =~= all);
    }
}

proof fn lemma_fault_stays(lines: Seq<Seq<char>>, k: int)
    requires
        0 <= k <= lines.len(),
        read_lines(lines.take(k)) is Err,
    ensures
        read_lines(lines) == read_lines(lines.take(k)),
    decreases lines.len() - k,
{
    if k < lines.len() {
        assert(lines.take(k + 1).drop_last() =~= lines.take(k));
        lemma_fault_stays(lines, k + 1);
    } else {
        assert(lines.take(k) =~= lines);
    }
}

/// What parsing gave, over views.
pub open spec fn parse_view(r: Result<Vec<RouterItem>, String>) -> Result<
    Seq<ItemView>,
    Seq<char>,
> {
    match r {
        Ok(v) => Ok(item_views(v@)),
        Err(e) => Err(e@),
    }
}

/// What parsing is to give.
pub open spec fn parse_result(l: Lang, s: Seq<char>) -> Result<Seq<ItemView>, Seq<char>> {
    match table(s) {
        Ok(items) => Ok(items),
        Err(f) => Err(fault_text(l, f)),
    }
}

/// Parses a router table. The reason for a rejection is in the given language.
pub fn parse_router_yaml(l: Lang, s: &str) -> (r: Result<Vec<RouterItem>, String>)
    ensures
        parse_view(r) == parse_result(l, s@),
{
    let lines = text::lines_of(s);
    let ghost all = text::views(lines@);
    let mut items: Vec<RouterItem> = Vec::new();
    let mut saw_config: bool = false;
    let mut in_config: bool = false;
    let mut i: usize = 0;
    proof {
        assert(item_views(items@) =~= Seq::<ItemView>::empty());
    }
    while i < lines.len()
        invariant
            i <= lines@.len(),
            all == text::views(lines@),
            all == text::lines(s@),
            read_lines(all.take(i as int)) == Ok::<Reading, RouterFault>(
                Reading { items: item_views(items@), saw_config, in_config },
            ),
        decreases lines@.len() - i,
    {
        let ghost st = Reading { items: item_views(items@), saw_config, in_config };
        let line = text::trimmed(lines[i].as_str());
        let v = text::chars_of(line.as_str());
        let number: u64 = i as u64 + 1;
        proof {
            assert(all.take(i + 1).drop_last() =~= all.take(i as int));
            assert(all.take(i + 1).last() == lines@[i as int]@);
            assert(read_lines(all.take(i + 1)) == line_read(st, lines@[i as int]@, i as nat));
            assert(read_lines(all.take(i + 1)) is Err ==> read_lines(all) == read_lines(
                all.take(i + 1),
            )) by {
                if read_lines(all.take(i + 1)) is Err {
                    lemma_fault_stays(all, i + 1);
                }
            }
            reveal_strlit("- ");
        }
        if v.len() == 0 || v[0] == '#' {
            i = i + 1;
            continue ;
        }
        match text::after_prefix(line.as_str(), "config:") {
            Some(rest) => {
                if saw_config {
                    return Err(
                        lang::fmt1(
                            l,
                            "第 {} 行: 出现重复的 config 键",
                            "line {}: duplicate config key",
                            text::decimal_of(number).as_str(),
                        ),
                    );
                }
                saw_config = true;
                let rest = text::trimmed(rest.as_str());
                let w = text::chars_of(rest.as_str());
                if w.len() == 0 {
                    in_config = true;
                } else if w[0] == '[' {
                    if w[w.len() - 1] != ']' {
                        return Err(
                            lang::fmt1(
                                l,
                                "第 {} 行: 流式列表未闭合 (缺少 ])",
                                "line {}: inline list not closed (missing ])",
                                text::decimal_of(number).as_str(),
                            ),
                        );
                    }
                    let inner = text::string_of(&w, 1, w.len() - 1);
                    push_entries(&mut items, inner.as_str(), i);
                    in_config = false;
                } else {
                    let name = clean(rest.as_str());
                    push_entry(&mut items, name, i);
                    in_config = false;
                }
            },
            None => {
                if !in_config {
                    return Err(
                        lang::fmt2(
                            l,
                            "第 {} 行: 无法识别的配置 {}，预期为 config 文件列表",
                            "line {}: unrecognized config {}, expected a config file list",
                            text::decimal_of(number).as_str(),
                            line.as_str(),
                        ),
                    );
                }
                match text::after_prefix(line.as_str(), "- ") {
                    Some(item) => {
                        proof {
                            assert(line@[0] == line@.take("- "@.len() as int)[0]);
                        }
                        let name = clean(item.as_str());
                        push_entry(&mut items, name, i);
                    },
                    None => {
                        if v[0] == '-' {
                            let name = clean(text::without_dashes(line.as_str()).as_str());
                            push_entry(&mut items, name, i);
                        } else {
                            return Err(
                                lang::fmt2(
                                    l,
                                    "第 {} 行: config 列表中出现非列表项 {}",
                                    "line {}: non-list item in config list {}",
                                    text::decimal_of(number).as_str(),
                                    line.as_str(),
                                ),
                            );
                        }
                    },
                }
            },
        }
        i = i + 1;
    }
    proof {
        assert(all.take(i as int) =~= all);
    }
    if items.len() == 0 {
        return Err(lang::tr(l, "config 文件列表为空", "config file list is empty").to_string());
    }
    Ok(items)
}

/// Where the file of an entry is.
pub open spec fn located(absolute: bool, name: Seq<char>, beside: Seq<char>) -> Seq<char> {
    if absolute {
        name
    } else {
        beside
    }
}

/// The path of an entry: its name where that is an absolute path, else the path
/// that the name leads to from the directory of the table.
pub fn entry_path(absolute: bool, name: &str, beside: &str) -> (r: String)
    ensures
        r@ == located(absolute, name@, beside@),
{
    if absolute {
        name.to_string()
    } else {
        beside.to_string()
    }
}

// ---------------------------------------------------------------------------
// Markers
// ---------------------------------------------------------------------------

/// A comment, in one of the two languages, that marks the entry below it as one
/// that cannot be used.
pub open spec fn is_marker(raw: Seq<char>) -> bool {
    let t = text::trim(raw);
    text::starts_with(t, "# [无效]"@) || text::starts_with(t, "# [invalid]"@)
}

/// The given comments, each with the line above which it is to stand.
pub open spec fn marker_views(m: Seq<(usize, String)>) -> Seq<(nat, Seq<char>)> {
    m.map_values(|x: (usize, String)| (x.0 as nat, x.1@))
}

/// The comments for a line: all that are given for it, in their order.
pub open spec fn markers_for(m: Seq<(nat, Seq<char>)>, line: nat) -> Seq<Seq<char>>
    decreases m.len(),
{
    if m.len() == 0 {
        seq![]
    } else {
        let before = markers_for(m.drop_last(), line);
        if m.last().0 == line {
            before.push(m.last().1)
        } else {
            before
        }
    }
}

/// The first `k` lines without the old markers and with the new ones, each new
/// one on a line of its own above the line that it is given for.
pub open spec fn marked(lines: Seq<Seq<char>>, m: Seq<(nat, Seq<char>)>, k: nat) -> Seq<Seq<char>>
    decreases k,
{
    if k == 0 {
        seq![]
    } else {
        let i = (k - 1) as nat;
        let before = marked(lines, m, i);
        let line = lines[i as int];
        if is_marker(line) {
            before
        } else {
            before + markers_for(m, i) + seq![line]
        }
    }
}

pub open spec fn ends_with_newline(s: Seq<char>) -> bool {
    s.len() > 0 && s.last() == '\n'
}

/// The text with its old markers taken out and the given ones put in.
pub open spec fn rewritten(s: Seq<char>, m: Seq<(nat, Seq<char>)>) -> Seq<char> {
    let lines = text::lines(s);
    let out = text::join(marked(lines, m, lines.len()), '\n');
    if ends_with_newline(s) {
        out.push('\n')
    } else {
        out
    }
}

/// Adds the comments for a line.
fn add_markers(out: &mut Vec<String>, m: &[(usize, String)], line: usize)
    ensures
        text::views(final(out)@) == text::views(old(out)@) + markers_for(
            marker_views(m@),
            line as nat,
        ),
{
    let ghost all = marker_views(m@);
    let ghost start = text::views(out@);
    let mut i: usize = 0;
    proof {
        assert(all.take(0) =~= Seq::<(nat, Seq<char>)>::empty());
        assert(start + markers_for(all.take(0), line as nat) =~= start);
    }
    while i < m.len()
        invariant
            i <= m@.len(),
            all == marker_views(m@),
            text::views(out@) == start + markers_for(all.take(i as int), line as nat),
        decreases m@.len() - i,
    {
        let ghost before = text::views(out@);
        proof {
            assert(all.take(i + 1).drop_last() =~= all.take(i as int));
            assert(all.take(i + 1).last() == (m@[i as int].0 as nat, m@[i as int].1@));
        }
        if m[i].0 == line {
            out.push(m[i].1.clone());
            proof {
                assert(text::views(out@) =~= before.push(m@[i as int].1@));
                assert(text::views(out@) =~= start + markers_for(all.take(i + 1), line as nat));
            }
        }
        i = i + 1;
    }
    proof {
        assert(all.take(i as int) =~= all);
    }
}

/// Puts comments above the lines of entries that cannot be used, and takes out
/// the markers of earlier times. The lines are counted from zero in the given
/// text; where several comments are given for one line, all of them stand above
/// it, in their order.
pub fn rewrite_with_markers(s: &str, invalid: &[(usize, String)]) -> (r: String)
    ensures
        r@ == rewritten(s@, marker_views(invalid@)),
{
    let lines = text::lines_of(s);
    let ghost all = text::views(lines@);
    let ghost m = marker_views(invalid@);
    let mut out: Vec<String> = Vec::new();
    let mut i: usize = 0;
    proof {
        assert(text::views(out@) =~= Seq::<Seq<char>>::empty());
    }
    while i < lines.len()
        invariant
            i <= lines@.len(),
            all == text::views(lines@),
            m == marker_views(invalid@),
            text::views(out@) == marked(all, m, i as nat),
        decreases lines@.len() - i,
    {
        let ghost before = text::views(out@);
        proof {
            assert(all[i as int] == lines@[i as int]@);
        }
        let trimmed = text::trimmed(lines[i].as_str());
        let old_marker = text::after_prefix(trimmed.as_str(), "# [无效]").is_some()
            || text::after_prefix(trimmed.as_str(), "# [invalid]").is_some();
        if !old_marker {
            add_markers(&mut out, invalid, i);
            let ghost mid = text::views(out@);
            out.push(lines[i].clone());
            proof {
                assert(text::views(out@) =~= mid + seq![lines@[i as int]@]);
            }
        }
        i = i + 1;
    }
    let mut result = text::joined(&out, '\n');
    let v = text::chars_of(s);
    if v.len() > 0 && v[v.len() - 1] == '\n' {
        result.push('\n');
    }
    result
}

// ---------------------------------------------------------------------------
// Laws
// ---------------------------------------------------------------------------

pub open spec fn names(items: Seq<ItemView>) -> Seq<Seq<char>> {
    items.map_values(|i: ItemView| i.name)
}

/// Where the line `i` comes to stand once the markers are put in.
pub open spec fn place(lines: Seq<Seq<char>>, m: Seq<(nat, Seq<char>)>, i: nat) -> nat {
    marked(lines, m, i).len() + markers_for(m, i).len()
}

/// The entries, each at the place to which its line comes.
pub open spec fn moved(
    items: Seq<ItemView>,
    lines: Seq<Seq<char>>,
    m: Seq<(nat, Seq<char>)>,
) -> Seq<ItemView> {
    items.map_values(|i: ItemView| ItemView { name: i.name, line: place(lines, m, i.line) })
}

/// Comments that a router table ignores, each on a line of its own.
pub open spec fn are_comments(m: Seq<(nat, Seq<char>)>) -> bool {
    forall|i: int|
        0 <= i < m.len() ==> !(#[trigger] m[i]).1.contains('\n') && is_ignored(
            text::trim(m[i].1),
        )
}

/// Each comment for a line is one of the given ones.
proof fn lemma_given_marker(m: Seq<(nat, Seq<char>)>, line: nat, j: int) -> (i: int)
    requires
        0 <= j < markers_for(m, line).len(),
    ensures
        0 <= i < m.len(),
        m[i] == (line, markers_for(m, line)[j]),
    decreases m.len(),
{
    let before = markers_for(m.drop_last(), line);
    if j < before.len() {
        lemma_given_marker(m.drop_last(), line, j)
    } else {
        m.len() - 1
    }
}

/// Each given comment is among those for its line.
proof fn lemma_marker_is_used(m: Seq<(nat, Seq<char>)>, i: int)
    requires
        0 <= i < m.len(),
    ensures
        markers_for(m, m[i].0).contains(m[i].1),
    decreases m.len(),
{
    let line = m[i].0;
    let all = markers_for(m, line);
    if i == m.len() - 1 {
        assert(all.last() == m[i].1);
    } else {
        let init = m.drop_last();
        lemma_marker_is_used(init, i);
        let before = markers_for(init, line);
        let j = choose|j: int| 0 <= j < before.len() && before[j] == init[i].1;
        assert(all[j] == m[i].1);
    }
}

/// Comments behind some lines add nothing to what is read of them.
proof fn lemma_comments_read(lines: Seq<Seq<char>>, comments: Seq<Seq<char>>)
    requires
        read_lines(lines) is Ok,
        forall|i: int|
            0 <= i < comments.len() ==> is_ignored(text::trim(#[trigger] comments[i])),
    ensures
        read_lines(lines + comments) == read_lines(lines),
    decreases comments.len(),
{
    if comments.len() == 0 {
        assert(lines + comments =~= lines);
    } else {
        let init = comments.drop_last();
        assert forall|i: int| 0 <= i < init.len() implies is_ignored(
            text::trim(#[trigger] init[i]),
        ) by {
            assert(init[i] == comments[i]);
        }
        lemma_comments_read(lines, init);
        let all = lines + comments;
        assert(all.drop_last() =~= lines + init);
        assert(is_ignored(text::trim(comments[comments.len() - 1])));
        assert(all.last() == comments[comments.len() - 1]);
    }
}

proof fn lemma_marker_ignored(raw: Seq<char>)
    requires
        is_marker(raw),
    ensures
        is_ignored(text::trim(raw)),
{
    reveal_strlit("# [无效]");
    reveal_strlit("# [invalid]");
    let t = text::trim(raw);
    if text::starts_with(t, "# [无效]"@) {
        assert(t.take("# [无效]"@.len() as int)[0] == "# [无效]"@[0]);
    } else {
        assert(t.take("# [invalid]"@.len() as int)[0] == "# [invalid]"@[0]);
    }
}

proof fn lemma_entries_line(ns: Seq<Seq<char>>, line: nat)
    ensures
        forall|k: int|
            0 <= k < entries(ns, line).len() ==> (#[trigger] entries(ns, line)[k]).line == line,
    decreases ns.len(),
{
    if ns.len() > 0 {
        lemma_entries_line(ns.drop_last(), line);
        let before = entries(ns.drop_last(), line);
        let all = entries(ns, line);
        assert forall|k: int| 0 <= k < all.len() implies (#[trigger] all[k]).line == line by {
            if k < before.len() {
                assert(all[k] == before[k]);
            }
        }
    }
}

/// The same entries on another line.
spec fn at_line(items: Seq<ItemView>, line: nat) -> Seq<ItemView> {
    items.map_values(|i: ItemView| ItemView { name: i.name, line })
}

proof fn lemma_entries_moved(ns: Seq<Seq<char>>, line: nat, to: nat)
    ensures
        entries(ns, to) == at_line(entries(ns, line), to),
    decreases ns.len(),
{
    if ns.len() > 0 {
        lemma_entries_moved(ns.drop_last(), line, to);
    }
    assert(entries(ns, to) =~= at_line(entries(ns, line), to));
}

/// A line adds the same entries wherever it stands, whatever white space is
/// around its text, and its entries bear its number.
proof fn lemma_line_moved(
    a: Reading,
    b: Reading,
    raw: Seq<char>,
    other: Seq<char>,
    i: nat,
    j: nat,
) -> (more: Seq<ItemView>)
    requires
        a.saw_config == b.saw_config,
        a.in_config == b.in_config,
        text::trim(raw) == text::trim(other),
        line_read(a, raw, i) is Ok,
    ensures
        line_read(b, other, j) is Ok,
        line_read(a, raw, i)->Ok_0.saw_config == line_read(b, other, j)->Ok_0.saw_config,
        line_read(a, raw, i)->Ok_0.in_config == line_read(b, other, j)->Ok_0.in_config,
        line_read(a, raw, i)->Ok_0.items == a.items + more,
        line_read(b, other, j)->Ok_0.items == b.items + at_line(more, j),
        more.len() > 0 ==> !is_ignored(text::trim(raw)),
        forall|k: int| 0 <= k < more.len() ==> (#[trigger] more[k]).line == i,
{
    let t = text::trim(raw);
    let none = Seq::<ItemView>::empty();
    assert(a.items + none =~= a.items);
    assert(b.items + at_line(none, j) =~= b.items);
    if is_ignored(t) {
        none
    } else if text::starts_with(t, "config:"@) {
        let rest = text::trim(t.skip("config:"@.len() as int));
        if rest.len() == 0 {
            none
        } else if rest[0] == '[' {
            let ns = text::split(rest.subrange(1, rest.len() - 1), ',');
            lemma_entries_line(ns, i);
            lemma_entries_moved(ns, i, j);
            entries(ns, i)
        } else {
            assert(at_line(entry(cleaned(rest), i), j) =~= entry(cleaned(rest), j));
            entry(cleaned(rest), i)
        }
    } else {
        let name = cleaned(item_text(t));
        assert(at_line(entry(name, i), j) =~= entry(name, j));
        entry(name, i)
    }
}

/// The markers change nothing but the places of the entries; and each entry
/// stands on a line that is no marker.
proof fn lemma_marked_reads(lines: Seq<Seq<char>>, m: Seq<(nat, Seq<char>)>, k: nat)
    requires
        k <= lines.len(),
        are_comments(m),
        read_lines(lines.take(k as int)) is Ok,
    ensures
        read_lines(marked(lines, m, k)) is Ok,
        ({
            let x = read_lines(lines.take(k as int))->Ok_0;
            let y = read_lines(marked(lines, m, k))->Ok_0;
            &&& y.items == moved(x.items, lines, m)
            &&& x.saw_config == y.saw_config
            &&& x.in_config == y.in_config
            &&& forall|n: int|
                0 <= n < x.items.len() ==> (#[trigger] x.items[n]).line < k && !is_marker(
                    lines[x.items[n].line as int],
                ) && !is_ignored(text::trim(lines[x.items[n].line as int]))
        }),
    decreases k,
{
    if k == 0 {
        let x = read_lines(lines.take(0))->Ok_0;
        assert(x.items.len() == 0);
        assert(moved(x.items, lines, m) =~= x.items);
        assert(marked(lines, m, 0) =~= lines.take(0));
    } else {
        let i = (k - 1) as nat;
        let line = lines[i as int];
        let head = lines.take(i as int);
        assert(lines.take(k as int).drop_last() =~= head);
        assert(lines.take(k as int).last() == line);
        assert(read_lines(head) is Ok);
        lemma_marked_reads(lines, m, i);
        let a = read_lines(head)->Ok_0;
        let before = marked(lines, m, i);
        let b = read_lines(before)->Ok_0;
        let x = line_read(a, line, i)->Ok_0;
        if is_marker(line) {
            lemma_marker_ignored(line);
        } else {
            let comments = markers_for(m, i);
            let with = before + comments;
            assert forall|j: int| 0 <= j < comments.len() implies is_ignored(
                text::trim(#[trigger] comments[j]),
            ) by {
                let n = lemma_given_marker(m, i, j);
                assert(is_ignored(text::trim(m[n].1)));
            }
            lemma_comments_read(before, comments);
            assert(read_lines(with) == Ok::<Reading, RouterFault>(b));
            let j = with.len();
            assert(j == place(lines, m, i));
            let more = lemma_line_moved(a, b, line, line, i, j);
            let out = with + seq![line];
            assert(out.drop_last() =~= with);
            assert(marked(lines, m, k) == out);
            let y = line_read(b, line, j)->Ok_0;
            assert(read_lines(out) == line_read(b, line, j));
            assert(y.items =~= moved(x.items, lines, m)) by {
                assert forall|n: int| 0 <= n < y.items.len() implies #[trigger] y.items[n]
                    == moved(x.items, lines, m)[n] by {
                    if n < b.items.len() {
                        assert(y.items[n] == b.items[n]);
                        assert(x.items[n] == a.items[n]);
                    } else {
                        let q = n - b.items.len();
                        assert(x.items[n] == more[q]);
                        assert(more[q].line == i);
                    }
                }
            }
            assert forall|n: int| 0 <= n < x.items.len() implies (#[trigger] x.items[n]).line < k
                && !is_marker(lines[x.items[n].line as int]) && !is_ignored(
                text::trim(lines[x.items[n].line as int]),
            ) by {
                if n < a.items.len() {
                    assert(x.items[n] == a.items[n]);
                } else {
                    assert(x.items[n] == more[n - a.items.len()]);
                }
            }
        }
    }
}

/// Lines that are the same once trimmed read the same.
proof fn lemma_trimmed_reads(a: Seq<Seq<char>>, b: Seq<Seq<char>>)
    requires
        a.len() == b.len(),
        forall|i: int| 0 <= i < a.len() ==> text::trim(#[trigger] a[i]) == text::trim(b[i]),
    ensures
        read_lines(a) == read_lines(b),
    decreases a.len(),
{
    if a.len() > 0 {
        let x = a.drop_last();
        let y = b.drop_last();
        assert forall|i: int| 0 <= i < x.len() implies text::trim(#[trigger] x[i]) == text::trim(
            y[i],
        ) by {
            assert(x[i] == a[i]);
            assert(y[i] == b[i]);
        }
        lemma_trimmed_reads(x, y);
        assert(text::trim(a[a.len() - 1]) == text::trim(b[b.len() - 1]));
    }
}

proof fn lemma_without_return(s: Seq<char>)
    ensures
        text::trim(text::without_return(s)) == text::trim(s),
{
    if s.len() > 0 && s.last() == '\r' {
        text::lemma_trim_of_init(s);
    }
}

proof fn lemma_marked_whole(lines: Seq<Seq<char>>, m: Seq<(nat, Seq<char>)>, k: nat)
    requires
        k <= lines.len(),
        are_comments(m),
        forall|i: int| 0 <= i < lines.len() ==> !(#[trigger] lines[i]).contains('\n'),
    ensures
        forall|i: int|
            0 <= i < marked(lines, m, k).len() ==> !(#[trigger] marked(lines, m, k)[i]).contains(
                '\n',
            ),
    decreases k,
{
    if k > 0 {
        let j = (k - 1) as nat;
        lemma_marked_whole(lines, m, j);
        let out = marked(lines, m, k);
        let before = marked(lines, m, j);
        assert forall|i: int| 0 <= i < out.len() implies !(#[trigger] out[i]).contains('\n') by {
            if i < before.len() {
                assert(out[i] == before[i]);
            } else if i == out.len() - 1 {
                assert(out[i] == lines[j as int]);
            } else {
                let n = lemma_given_marker(m, j, i - before.len());
                assert(!m[n].1.contains('\n'));
            }
        }
    }
}

/// The lines of a rewritten text read as the marked lines do.
proof fn lemma_rewritten_reads(s: Seq<char>, m: Seq<(nat, Seq<char>)>)
    requires
        are_comments(m),
        marked(text::lines(s), m, text::lines(s).len()).len() > 0,
        read_lines(marked(text::lines(s), m, text::lines(s).len())) is Ok,
    ensures
        read_lines(text::lines(rewritten(s, m))) == read_lines(
            marked(text::lines(s), m, text::lines(s).len()),
        ),
{
    let lines = text::lines(s);
    let out = marked(lines, m, lines.len());
    text::lemma_lines_whole(s);
    lemma_marked_whole(lines, m, lines.len());
    text::lemma_lines_of_join(out);
    let got = text::lines(rewritten(s, m));
    let f = |line: Seq<char>| text::without_return(line);
    if ends_with_newline(s) {
        assert forall|i: int| 0 <= i < got.len() implies text::trim(#[trigger] got[i])
            == text::trim(out[i]) by {
            lemma_without_return(out[i]);
        }
        lemma_trimmed_reads(got, out);
    } else {
        let init = out.drop_last();
        let cut = init.map_values(f);
        assert forall|i: int| 0 <= i < cut.len() implies text::trim(#[trigger] cut[i])
            == text::trim(init[i]) by {
            lemma_without_return(init[i]);
        }
        lemma_trimmed_reads(cut, init);
        if out.last().len() == 0 {
            assert(text::trim(out.last()) == out.last());
        } else {
            assert(got.drop_last() =~= cut);
            assert(got.last() == out.last());
        }
    }
}

/// The comments that are put in do not touch what the table lists: the names
/// of its entries stay the same, in the same order.
pub proof fn markers_keep_the_entries(s: Seq<char>, m: Seq<(nat, Seq<char>)>)
    requires
        table(s) is Ok,
        are_comments(m),
    ensures
        table(rewritten(s, m)) is Ok,
        names(table(rewritten(s, m))->Ok_0) == names(table(s)->Ok_0),
{
    let lines = text::lines(s);
    assert(lines.take(lines.len() as int) =~= lines);
    lemma_marked_reads(lines, m, lines.len());
    let x = read_lines(lines)->Ok_0;
    let y = read_lines(marked(lines, m, lines.len()))->Ok_0;
    assert(y.items.len() == x.items.len());
    lemma_rewritten_reads(s, m);
    assert(names(y.items) =~= names(x.items));
}

/// Each entry of a table stands on a line of it that is no marker.
pub proof fn entries_stand_on_lines(s: Seq<char>, i: int)
    requires
        table(s) is Ok,
        0 <= i < table(s)->Ok_0.len(),
    ensures
        table(s)->Ok_0[i].line < text::lines(s).len(),
        !is_marker(text::lines(s)[table(s)->Ok_0[i].line as int]),
{
    let lines = text::lines(s);
    assert(lines.take(lines.len() as int) =~= lines);
    lemma_marked_reads(lines, seq![], lines.len());
    let item = read_lines(lines)->Ok_0.items[i];
    assert(item.line < lines.len());
}

/// Every comment that is given for a line is written: the comments for it stand
/// right above it, one on each line, in their order.
pub proof fn comments_stand_above_their_lines(
    lines: Seq<Seq<char>>,
    m: Seq<(nat, Seq<char>)>,
    i: nat,
)
    requires
        i < lines.len(),
        !is_marker(lines[i as int]),
    ensures
        ({
            let out = marked(lines, m, lines.len());
            let p = place(lines, m, i);
            &&& markers_for(m, i).len() <= p < out.len()
            &&& out.subrange(p - markers_for(m, i).len(), p as int) == markers_for(m, i)
            &&& out[p as int] == lines[i as int]
        }),
        forall|n: int|
            0 <= n < m.len() && m[n].0 == i ==> markers_for(m, i).contains((#[trigger] m[n]).1),
{
    let out = marked(lines, m, lines.len());
    let now = marked(lines, m, i + 1);
    let p = place(lines, m, i);
    let comments = markers_for(m, i);
    lemma_marked_prefix(lines, m, i + 1, lines.len());
    assert(now == marked(lines, m, i) + comments + seq![lines[i as int]]);
    assert(now[p as int] == out[p as int]);
    let above = out.subrange(p - comments.len(), p as int);
    assert forall|j: int| 0 <= j < comments.len() implies #[trigger] above[j] == comments[j] by {
        let k = p - comments.len() + j;
        assert(now[k] == comments[j]);
        assert(out[k] == now[k]);
    }
    assert(above =~= comments);
    assert forall|n: int| 0 <= n < m.len() && m[n].0 == i implies comments.contains(
        (#[trigger] m[n]).1,
    ) by {
        lemma_marker_is_used(m, n);
    }
}

proof fn lemma_marked_no_marker(lines: Seq<Seq<char>>, k: nat)
    requires
        k <= lines.len(),
    ensures
        forall|i: int|
            0 <= i < marked(lines, seq![], k).len() ==> !is_marker(
                #[trigger] marked(lines, seq![], k)[i],
            ),
    decreases k,
{
    if k > 0 {
        let j = (k - 1) as nat;
        lemma_marked_no_marker(lines, j);
        let out = marked(lines, seq![], k);
        let before = marked(lines, seq![], j);
        assert forall|i: int| 0 <= i < out.len() implies !is_marker(#[trigger] out[i]) by {
            if i < before.len() {
                assert(out[i] == before[i]);
            }
        }
    }
}

/// Where no entry is to be marked, no marker is left.
pub proof fn old_markers_are_cleared(s: Seq<char>)
    ensures
        forall|i: int|
            0 <= i < text::lines(rewritten(s, seq![])).len() ==> !is_marker(
                #[trigger] text::lines(rewritten(s, seq![]))[i],
            ),
{
    let m = Seq::<(nat, Seq<char>)>::empty();
    let lines = text::lines(s);
    let out = marked(lines, m, lines.len());
    let got = text::lines(rewritten(s, m));
    lemma_marked_no_marker(lines, lines.len());
    text::lemma_lines_whole(s);
    lemma_marked_whole(lines, m, lines.len());
    reveal_strlit("# [无效]");
    reveal_strlit("# [invalid]");
    assert forall|i: int| 0 <= i < got.len() implies !is_marker(#[trigger] got[i]) by {
        if out.len() == 0 {
            lemma_lines_of_nothing();
            assert(rewritten(s, m) =~= Seq::<char>::empty() || rewritten(s, m) =~= seq!['\n']);
            assert(got[i].len() == 0);
            assert(text::trim(got[i]).len() == 0);
        } else {
            text::lemma_lines_of_join(out);
            lemma_without_return(out[i]);
        }
    }
}

proof fn lemma_lines_of_nothing()
    ensures
        text::lines(Seq::<char>::empty()).len() == 0,
        text::lines(seq!['\n']) == seq![Seq::<char>::empty()],
{
    let none = Seq::<char>::empty();
    assert(text::split(none, '\n') =~= seq![none]);
    let feed = seq!['\n'];
    assert(feed.drop_last() =~= none);
    assert(text::split(feed, '\n') =~= seq![none, none]);
    assert(text::lines(feed) =~= seq![none]);
}

/// The comments for the entries that cannot be used: `bad` gives the comment
/// for a name, and nothing for a name that can be used.
pub open spec fn markers_of(
    items: Seq<ItemView>,
    bad: spec_fn(Seq<char>) -> Option<Seq<char>>,
) -> Seq<(nat, Seq<char>)>
    decreases items.len(),
{
    if items.len() == 0 {
        seq![]
    } else {
        let before = markers_of(items.drop_last(), bad);
        match bad(items.last().name) {
            Some(c) => before.push((items.last().line, c)),
            None => before,
        }
    }
}

proof fn lemma_markers_are_comments(
    items: Seq<ItemView>,
    bad: spec_fn(Seq<char>) -> Option<Seq<char>>,
)
    requires
        forall|n: Seq<char>|
            (#[trigger] bad(n)) matches Some(c) ==> is_marker(c) && !c.contains('\n'),
    ensures
        are_comments(markers_of(items, bad)),
    decreases items.len(),
{
    if items.len() > 0 {
        lemma_markers_are_comments(items.drop_last(), bad);
        let m = markers_of(items, bad);
        let before = markers_of(items.drop_last(), bad);
        assert forall|i: int| 0 <= i < m.len() implies !(#[trigger] m[i]).1.contains('\n')
            && is_ignored(text::trim(m[i].1)) by {
            if i < before.len() {
                assert(m[i] == before[i]);
            } else {
                assert(bad(items.last().name) == Some(m[i].1));
                lemma_marker_ignored(m[i].1);
            }
        }
    }
}

/// A line with a comment has an entry that cannot be used.
proof fn lemma_marker_of(
    items: Seq<ItemView>,
    bad: spec_fn(Seq<char>) -> Option<Seq<char>>,
    line: nat,
) -> (i: int)
    requires
        markers_for(markers_of(items, bad), line).len() > 0,
    ensures
        0 <= i < items.len(),
        items[i].line == line,
    decreases items.len(),
{
    let init = items.drop_last();
    let m = markers_of(items, bad);
    if bad(items.last().name) is Some {
        assert(m.drop_last() =~= markers_of(init, bad));
    }
    if bad(items.last().name) is Some && items.last().line == line {
        items.len() - 1
    } else {
        lemma_marker_of(init, bad, line)
    }
}

/// A later line comes to stand at a later place.
proof fn lemma_places_differ(lines: Seq<Seq<char>>, m: Seq<(nat, Seq<char>)>, i: nat, j: nat)
    requires
        i < j <= lines.len(),
        !is_marker(lines[i as int]),
    ensures
        place(lines, m, i) < marked(lines, m, j).len(),
    decreases j,
{
    let k = (j - 1) as nat;
    if i < k {
        lemma_places_differ(lines, m, i, k);
    }
}

proof fn lemma_marker_moved(
    items: Seq<ItemView>,
    lines: Seq<Seq<char>>,
    m: Seq<(nat, Seq<char>)>,
    bad: spec_fn(Seq<char>) -> Option<Seq<char>>,
    line: nat,
)
    requires
        forall|n: int|
            0 <= n < items.len() ==> (#[trigger] items[n]).line < lines.len() && !is_marker(
                lines[items[n].line as int],
            ),
        line < lines.len(),
        !is_marker(lines[line as int]),
    ensures
        markers_for(markers_of(moved(items, lines, m), bad), place(lines, m, line)) == markers_for(
            markers_of(items, bad),
            line,
        ),
    decreases items.len(),
{
    let there = moved(items, lines, m);
    if items.len() > 0 {
        let init = items.drop_last();
        assert(there.drop_last() =~= moved(init, lines, m));
        assert forall|n: int| 0 <= n < init.len() implies (#[trigger] init[n]).line < lines.len()
            && !is_marker(lines[init[n].line as int]) by {
            assert(init[n] == items[n]);
        }
        lemma_marker_moved(init, lines, m, bad, line);
        let last = items[items.len() - 1];
        assert(there.last().name == last.name);
        assert(there.last().line == place(lines, m, last.line));
        if last.line < line {
            lemma_places_differ(lines, m, last.line, line);
        } else if line < last.line {
            lemma_places_differ(lines, m, line, last.line);
        }
        if let Some(c) = bad(last.name) {
            assert(markers_of(items, bad).drop_last() =~= markers_of(init, bad));
            assert(markers_of(there, bad).drop_last() =~= markers_of(there.drop_last(), bad));
        }
    } else {
        assert(there.len() == 0);
    }
}

proof fn lemma_marked_prefix(
    lines: Seq<Seq<char>>,
    m: Seq<(nat, Seq<char>)>,
    k: nat,
    longer: nat,
)
    requires
        k <= longer <= lines.len(),
    ensures
        marked(lines, m, k).is_prefix_of(marked(lines, m, longer)),
    decreases longer,
{
    if k < longer {
        lemma_marked_prefix(lines, m, k, (longer - 1) as nat);
    }
}

/// Old markers add nothing.
proof fn lemma_markers_skipped(
    lines: Seq<Seq<char>>,
    m: Seq<(nat, Seq<char>)>,
    from: nat,
    to: nat,
)
    requires
        from <= to <= lines.len(),
        forall|i: int| from <= i < to ==> is_marker(#[trigger] lines[i]),
    ensures
        marked(lines, m, to) == marked(lines, m, from),
    decreases to,
{
    if from < to {
        lemma_markers_skipped(lines, m, from, (to - 1) as nat);
        assert(is_marker(lines[to - 1]));
    }
}

proof fn lemma_marked_twice(
    lines: Seq<Seq<char>>,
    m: Seq<(nat, Seq<char>)>,
    again: Seq<(nat, Seq<char>)>,
    k: nat,
)
    requires
        k <= lines.len(),
        forall|i: int| 0 <= i < m.len() ==> is_marker((#[trigger] m[i]).1),
        forall|i: nat|
            i < lines.len() && !is_marker(lines[i as int]) ==> markers_for(
                again,
                #[trigger] place(lines, m, i),
            ) == markers_for(m, i),
    ensures
        ({
            let out = marked(lines, m, lines.len());
            marked(out, again, marked(lines, m, k).len()) == marked(lines, m, k)
        }),
    decreases k,
{
    let out = marked(lines, m, lines.len());
    if k > 0 {
        let i = (k - 1) as nat;
        lemma_marked_twice(lines, m, again, i);
        let before = marked(lines, m, i);
        let now = marked(lines, m, k);
        lemma_marked_prefix(lines, m, k, lines.len());
        let line = lines[i as int];
        if !is_marker(line) {
            let p = place(lines, m, i);
            assert(markers_for(again, p) == markers_for(m, i));
            assert(now[p as int] == line);
            assert(out[p as int] == line);
            assert forall|j: int| before.len() <= j < p implies is_marker(#[trigger] out[j]) by {
                assert(out[j] == now[j]);
                let n = lemma_given_marker(m, i, j - before.len());
                assert(is_marker(m[n].1));
            }
            lemma_markers_skipped(out, again, before.len(), p);
            assert(marked(out, again, p + 1) == before + markers_for(again, p) + seq![line]);
        }
    }
}

proof fn lemma_no_return_left(s: Seq<char>, m: Seq<(nat, Seq<char>)>, k: nat)
    requires
        k <= text::lines(s).len(),
        forall|i: int|
            0 <= i < text::lines(s).len() ==> text::without_return(#[trigger] text::lines(s)[i])
                == text::lines(s)[i],
        forall|i: int| 0 <= i < m.len() ==> text::without_return((#[trigger] m[i]).1) == m[i].1,
    ensures
        forall|i: int|
            0 <= i < marked(text::lines(s), m, k).len() ==> text::without_return(
                #[trigger] marked(text::lines(s), m, k)[i],
            ) == marked(text::lines(s), m, k)[i],
    decreases k,
{
    let lines = text::lines(s);
    if k > 0 {
        let j = (k - 1) as nat;
        lemma_no_return_left(s, m, j);
        let out = marked(lines, m, k);
        let before = marked(lines, m, j);
        assert forall|i: int| 0 <= i < out.len() implies text::without_return(#[trigger] out[i])
            == out[i] by {
            if i < before.len() {
                assert(out[i] == before[i]);
            } else if i == out.len() - 1 {
                assert(out[i] == lines[j as int]);
            } else {
                let n = lemma_given_marker(m, j, i - before.len());
                assert(text::without_return(m[n].1) == m[n].1);
            }
        }
    }
}

proof fn lemma_markers_are_from_bad(
    items: Seq<ItemView>,
    bad: spec_fn(Seq<char>) -> Option<Seq<char>>,
)
    requires
        forall|n: Seq<char>|
            (#[trigger] bad(n)) matches Some(c) ==> is_marker(c) && text::without_return(c) == c,
    ensures
        forall|i: int|
            0 <= i < markers_of(items, bad).len() ==> is_marker(
                (#[trigger] markers_of(items, bad)[i]).1,
            ) && text::without_return(markers_of(items, bad)[i].1) == markers_of(items, bad)[i].1,
    decreases items.len(),
{
    if items.len() > 0 {
        lemma_markers_are_from_bad(items.drop_last(), bad);
        let m = markers_of(items, bad);
        let before = markers_of(items.drop_last(), bad);
        assert forall|i: int| 0 <= i < m.len() implies is_marker((#[trigger] m[i]).1)
            && text::without_return(m[i].1) == m[i].1 by {
            if i < before.len() {
                assert(m[i] == before[i]);
            } else {
                assert(bad(items.last().name) == Some(m[i].1));
            }
        }
    }
}

/// The markers do not pile up: where a table is loaded again and the same
/// entries cannot be used for the same reasons, the file stays as it is. (A
/// line that still ends in a carriage return would lose it.)
pub proof fn marking_again_changes_nothing(
    s: Seq<char>,
    bad: spec_fn(Seq<char>) -> Option<Seq<char>>,
)
    requires
        table(s) is Ok,
        forall|n: Seq<char>|
            (#[trigger] bad(n)) matches Some(c) ==> is_marker(c) && !c.contains('\n')
                && text::without_return(c) == c,
        forall|i: int|
            0 <= i < text::lines(s).len() ==> text::without_return(#[trigger] text::lines(s)[i])
                == text::lines(s)[i],
    ensures
        ({
            let once = rewritten(s, markers_of(table(s)->Ok_0, bad));
            &&& table(once) is Ok
            &&& rewritten(once, markers_of(table(once)->Ok_0, bad)) == once
        }),
{
    let lines = text::lines(s);
    let items = table(s)->Ok_0;
    let m = markers_of(items, bad);
    let once = rewritten(s, m);
    lemma_markers_are_comments(items, bad);
    lemma_markers_are_from_bad(items, bad);
    assert(lines.take(lines.len() as int) =~= lines);
    lemma_marked_reads(lines, m, lines.len());
    let out = marked(lines, m, lines.len());
    let moved_items = moved(items, lines, m);
    assert(read_lines(out)->Ok_0.items == moved_items);
    assert(moved_items.len() == items.len());
    assert(out.len() > 0);
    lemma_rewritten_reads(s, m);
    let again = markers_of(moved_items, bad);
    assert(table(once)->Ok_0 == moved_items);
    assert forall|i: nat| i < lines.len() && !is_marker(lines[i as int]) implies markers_for(
        again,
        #[trigger] place(lines, m, i),
    ) == markers_for(m, i) by {
        lemma_marker_moved(items, lines, m, bad, i);
    }
    lemma_marked_twice(lines, m, again, lines.len());
    assert(marked(out, again, out.len()) == out);
    text::lemma_lines_whole(s);
    lemma_marked_whole(lines, m, lines.len());
    lemma_no_return_left(s, m, lines.len());
    text::lemma_lines_of_join(out);
    let f = |line: Seq<char>| text::without_return(line);
    let got = text::lines(once);
    if ends_with_newline(s) {
        assert(out.map_values(f) =~= out);
        assert(got == out);
    } else {
        let init = out.drop_last();
        assert(init.map_values(f) =~= init);
        if out.last().len() == 0 {
            let blank = (out.len() - 1) as nat;
            assert(out.take(out.len() as int) =~= out);
            lemma_marked_reads(out, seq![], out.len());
            if markers_for(again, blank).len() > 0 {
                let n = lemma_marker_of(moved_items, bad, blank);
                assert(!is_ignored(text::trim(out[moved_items[n].line as int])));
            }
            assert(moved_items[0].line < out.len());
            assert(!is_ignored(text::trim(out[moved_items[0].line as int])));
            lemma_blank_end(out, again);
        } else {
            assert(init.push(out.last()) =~= out);
            assert(got == out);
            lemma_join_end(out);
        }
    }
}

proof fn lemma_join_end(out: Seq<Seq<char>>)
    requires
        out.len() > 0,
        out.last().len() > 0,
        !out.last().contains('\n'),
    ensures
        !ends_with_newline(text::join(out, '\n')),
{
    let last = out.last();
    let all = text::join(out, '\n');
    assert(all.last() == last.last());
    assert(last.contains(last.last()));
}

proof fn lemma_blank_end(out: Seq<Seq<char>>, again: Seq<(nat, Seq<char>)>)
    requires
        out.len() > 1,
        out.last().len() == 0,
        marked(out, again, out.len()) == out,
        markers_for(again, (out.len() - 1) as nat).len() == 0,
    ensures
        text::join(marked(out.drop_last(), again, (out.len() - 1) as nat), '\n').push('\n')
            == text::join(out, '\n'),
        ends_with_newline(text::join(out, '\n')),
{
    let init = out.drop_last();
    let k = (out.len() - 1) as nat;
    assert(out.take(k as int) =~= init.take(k as int));
    lemma_marked_agree(out, init, again, k);
    reveal_strlit("# [无效]");
    reveal_strlit("# [invalid]");
    assert(!is_marker(out.last()));
    assert(marked(out, again, out.len()).drop_last() =~= marked(out, again, k));
    assert(text::join(init, '\n').push('\n') + out.last() =~= text::join(init, '\n').push('\n'));
}

proof fn lemma_marked_agree(
    a: Seq<Seq<char>>,
    b: Seq<Seq<char>>,
    m: Seq<(nat, Seq<char>)>,
    k: nat,
)
    requires
        k <= a.len(),
        k <= b.len(),
        a.take(k as int) == b.take(k as int),
    ensures
        marked(a, m, k) == marked(b, m, k),
    decreases k,
{
    if k > 0 {
        let j = (k - 1) as nat;
        assert(a.take(k as int)[j as int] == b.take(k as int)[j as int]);
        assert(a.take(j as int) =~= a.take(k as int).take(j as int));
        assert(b.take(j as int) =~= b.take(k as int).take(j as int));
        lemma_marked_agree(a, b, m, j);
    }
}

} // verus!
