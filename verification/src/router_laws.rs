//! What a router table lists, stated by how the table is written.

use vstd::prelude::*;

use crate::router;
use crate::router::{ItemView, Reading, RouterFault};
use crate::text;
use crate::text_laws;

verus! {

// ---------------------------------------------------------------------------
// Names
// ---------------------------------------------------------------------------

/// A name that can be written as it is: it is on one line, has no white space at
/// its ends, and does not stand between two quotes.
pub open spec fn is_bare(name: Seq<char>) -> bool {
    &&& name.len() > 0
    &&& text_laws::no_white_ends(name)
    &&& !name.contains('\n')
    &&& !(name.len() > 1 && name[0] == name.last() && (name[0] == '"' || name[0] == '\''))
}

/// `written` stands for `name`: it is the name itself, or the name between two
/// single or two double quotes.
pub open spec fn stands_for(written: Seq<char>, name: Seq<char>) -> bool {
    ||| written == name && is_bare(name)
    ||| name.len() > 0 && !name.contains('\n') && written == seq!['"'] + name + seq!['"']
    ||| name.len() > 0 && !name.contains('\n') && written == seq!['\''] + name + seq!['\'']
}

proof fn lemma_written(written: Seq<char>, name: Seq<char>)
    requires
        stands_for(written, name),
    ensures
        written.len() > 0,
        text_laws::no_white_ends(written),
        !written.contains('\n'),
        router::cleaned(written) == name,
{
    let none = Seq::<char>::empty();
    if written == name && is_bare(name) {
        text_laws::trimming_takes_only_the_ends(none, written, none);
        assert(none + written + none =~= written);
    } else {
        assert(written[0] == '"' || written[0] == '\'');
        assert(written.last() == written[0]);
        text_laws::trimming_takes_only_the_ends(none, written, none);
        assert(none + written + none =~= written);
        assert(written.subrange(1, written.len() - 1) =~= name);
        assert forall|i: int| 0 <= i < written.len() implies written[i] != '\n' by {
            if 0 < i < written.len() - 1 {
                assert(written[i] == name[i - 1]);
                assert(name.contains(name[i - 1]));
            }
        }
    }
}

/// A name is kept whole: only the white space around it and a pair of quotes are
/// taken away, whatever stands inside.
pub proof fn names_are_kept_whole(
    before: Seq<char>,
    written: Seq<char>,
    after: Seq<char>,
    name: Seq<char>,
)
    requires
        text_laws::all_white(before),
        text_laws::all_white(after),
        stands_for(written, name),
    ensures
        router::cleaned(before + written + after) == name,
{
    lemma_written(written, name);
    let none = Seq::<char>::empty();
    text_laws::trimming_takes_only_the_ends(before, written, after);
    text_laws::trimming_takes_only_the_ends(none, written, none);
    assert(none + written + none =~= written);
}

// ---------------------------------------------------------------------------
// Lists
// ---------------------------------------------------------------------------

/// The lines of a text that is made of them.
proof fn lemma_lines(lines: Seq<Seq<char>>)
    requires
        lines.len() > 0,
        forall|i: int|
            0 <= i < lines.len() ==> !(#[trigger] lines[i]).contains('\n') && lines[i].len() > 0
                && lines[i].last() != '\r',
    ensures
        text::lines(text::join(lines, '\n')) == lines,
        text::lines(text::join(lines, '\n').push('\n')) == lines,
{
    text::lemma_lines_of_join(lines);
    let f = |line: Seq<char>| text::without_return(line);
    assert forall|i: int| 0 <= i < lines.len() implies f(#[trigger] lines[i]) == lines[i] by {
        assert(lines[i].last() != '\r');
    }
    assert(lines.map_values(f) =~= lines);
    let init = lines.drop_last();
    assert(init.map_values(f) =~= init) by {
        assert forall|i: int| 0 <= i < init.len() implies f(#[trigger] init[i]) == init[i] by {
            assert(init[i] == lines[i]);
        }
    }
    assert(lines[lines.len() - 1].len() > 0);
    assert(init.push(lines.last()) =~= lines);
}

proof fn lemma_no_feed(a: Seq<char>, b: Seq<char>)
    requires
        !a.contains('\n'),
        !b.contains('\n'),
    ensures
        !(a + b).contains('\n'),
{
    assert forall|i: int| 0 <= i < (a + b).len() implies (a + b)[i] != '\n' by {
        if i < a.len() {
            assert(a.contains(a[i]));
        } else {
            assert(b.contains(b[i - a.len()]));
        }
    }
}

/// The lines of a block list: the key, and each written name behind a dash and a
/// space, indented as given.
pub open spec fn block_lines(
    indents: Seq<Seq<char>>,
    written: Seq<Seq<char>>,
    k: nat,
) -> Seq<Seq<char>> {
    seq!["config:"@] + Seq::new(k, |i: int| indents[i] + "- "@ + written[i])
}

/// The entries with the given names on the lines from the second on.
pub open spec fn block_items(names: Seq<Seq<char>>, k: nat) -> Seq<ItemView> {
    Seq::new(k, |i: int| ItemView { name: names[i], line: (i + 1) as nat })
}

proof fn lemma_key_line()
    ensures
        text::trim("config:"@) == "config:"@,
        "config:"@.len() == 7,
        !"config:"@.contains('\n'),
        "config:"@.last() == ':',
        "config:"@[0] == 'c',
        text::starts_with("config:"@, "config:"@),
        "config:"@.skip(7) =~= Seq::<char>::empty(),
        text::trim(Seq::<char>::empty()).len() == 0,
{
    reveal_strlit("config:");
    let s = "config:"@;
    let none = Seq::<char>::empty();
    text_laws::trimming_takes_only_the_ends(none, s, none);
    assert(none + s + none =~= s);
    assert(s.take(7) =~= s);
    text_laws::trimming_takes_only_the_ends(none, none, none);
    assert(none + none + none =~= none);
    assert forall|i: int| 0 <= i < s.len() implies s[i] != '\n' by {
        assert(s[0] == 'c' && s[1] == 'o' && s[2] == 'n' && s[3] == 'f' && s[4] == 'i' && s[5]
            == 'g' && s[6] == ':');
    }
}

proof fn lemma_item_line(
    st: Reading,
    indent: Seq<char>,
    written: Seq<char>,
    name: Seq<char>,
    line: nat,
)
    requires
        st.in_config,
        text_laws::all_white(indent),
        !indent.contains('\n'),
        stands_for(written, name),
    ensures
        ({
            let raw = indent + "- "@ + written;
            &&& raw.len() > 0
            &&& raw.last() != '\r'
            &&& !raw.contains('\n')
            &&& router::line_read(st, raw, line) == Ok::<Reading, RouterFault>(
                Reading { items: st.items.push(ItemView { name, line }), ..st },
            )
        }),
{
    reveal_strlit("- ");
    reveal_strlit("config:");
    lemma_written(written, name);
    let raw = indent + "- "@ + written;
    let t = "- "@ + written;
    let none = Seq::<char>::empty();
    assert(raw =~= indent + t);
    assert(raw =~= indent + t + none);
    assert(t.last() == written.last());
    text_laws::trimming_takes_only_the_ends(indent, t, none);
    assert(t[0] == '-');
    assert(t.take(2) =~= "- "@);
    assert(t.skip(2) =~= written);
    assert(!text::starts_with(t, "config:"@)) by {
        if text::starts_with(t, "config:"@) {
            assert(t.take(7)[0] == "config:"@[0]);
        }
    }
    assert(raw.last() == written.last());
    assert(!"- "@.contains('\n'));
    lemma_no_feed(indent, "- "@);
    lemma_no_feed(indent + "- "@, written);
    assert(st.items + seq![ItemView { name, line }] =~= st.items.push(ItemView { name, line }));
}

proof fn lemma_block(
    indents: Seq<Seq<char>>,
    written: Seq<Seq<char>>,
    names: Seq<Seq<char>>,
    k: nat,
)
    requires
        k <= names.len(),
        written.len() == names.len(),
        indents.len() == names.len(),
        forall|i: int|
            0 <= i < names.len() ==> stands_for(#[trigger] written[i], names[i])
                && text_laws::all_white(indents[i]) && !indents[i].contains('\n'),
    ensures
        router::read_lines(block_lines(indents, written, k)) == Ok::<Reading, RouterFault>(
            Reading { items: block_items(names, k), saw_config: true, in_config: true },
        ),
    decreases k,
{
    let lines = block_lines(indents, written, k);
    if k == 0 {
        lemma_key_line();
        assert(lines =~= seq!["config:"@]);
        assert(lines.drop_last() =~= Seq::<Seq<char>>::empty());
        assert(router::read_lines(lines.drop_last()) is Ok);
        assert(block_items(names, 0) =~= Seq::<ItemView>::empty());
    } else {
        let j = (k - 1) as nat;
        lemma_block(indents, written, names, j);
        assert(lines.drop_last() =~= block_lines(indents, written, j));
        assert(stands_for(written[j as int], names[j as int]));
        let st = Reading { items: block_items(names, j), saw_config: true, in_config: true };
        lemma_item_line(st, indents[j as int], written[j as int], names[j as int], k);
        assert(lines.last() == indents[j as int] + "- "@ + written[j as int]);
        assert(block_items(names, k) =~= block_items(names, j).push(
            ItemView { name: names[j as int], line: k },
        ));
    }
}

/// A block list lists its names, whole and in their order, each on the line where
/// it stands; however its items are indented, and with or without a line feed
/// at the end.
pub proof fn a_block_list_lists_its_names(
    indents: Seq<Seq<char>>,
    written: Seq<Seq<char>>,
    names: Seq<Seq<char>>,
)
    requires
        names.len() > 0,
        written.len() == names.len(),
        indents.len() == names.len(),
        forall|i: int|
            0 <= i < names.len() ==> stands_for(#[trigger] written[i], names[i])
                && text_laws::all_white(indents[i]) && !indents[i].contains('\n'),
    ensures
        ({
            let s = text::join(block_lines(indents, written, names.len()), '\n');
            &&& router::table(s) is Ok
            &&& router::table(s.push('\n')) == router::table(s)
            &&& router::table(s)->Ok_0.len() == names.len()
            &&& forall|i: int|
                0 <= i < names.len() ==> (#[trigger] router::table(s)->Ok_0[i]).name == names[i]
                    && router::table(s)->Ok_0[i].line == i + 1
        }),
{
    let n = names.len();
    let lines = block_lines(indents, written, n);
    lemma_block(indents, written, names, n);
    lemma_key_line();
    let st = Reading { items: seq![], saw_config: true, in_config: true };
    assert forall|i: int| 0 <= i < lines.len() implies !(#[trigger] lines[i]).contains('\n')
        && lines[i].len() > 0 && lines[i].last() != '\r' by {
        if i == 0 {
            assert(lines[0] == "config:"@);
        } else {
            assert(stands_for(written[i - 1], names[i - 1]));
            lemma_item_line(st, indents[i - 1], written[i - 1], names[i - 1], i as nat);
            assert(lines[i] == indents[i - 1] + "- "@ + written[i - 1]);
        }
    }
    lemma_lines(lines);
}

proof fn lemma_after_key(rest: Seq<char>)
    requires
        rest.len() > 0,
        text_laws::no_white_ends(rest),
        !rest.contains('\n'),
    ensures
        ({
            let line = "config: "@ + rest;
            let st = Reading { items: seq![], saw_config: false, in_config: false };
            &&& text::lines(line) == seq![line]
            &&& router::read_lines(seq![line]) == router::after_key(st, rest, 0)
        }),
{
    reveal_strlit("config: ");
    reveal_strlit("config:");
    let line = "config: "@ + rest;
    let none = Seq::<char>::empty();
    let st = Reading { items: seq![], saw_config: false, in_config: false };
    assert(line.last() == rest.last());
    assert(line[0] == 'c');
    text_laws::trimming_takes_only_the_ends(none, line, none);
    assert(none + line + none =~= line);
    assert(line.take(7) =~= "config:"@);
    let tail = line.skip(7);
    assert(tail =~= seq![' '] + rest);
    assert(tail =~= seq![' '] + rest + none);
    text_laws::trimming_takes_only_the_ends(seq![' '], rest, none);
    let lines = seq![line];
    assert(!"config: "@.contains('\n')) by {
        let s = "config: "@;
        assert(s[0] == 'c' && s[1] == 'o' && s[2] == 'n' && s[3] == 'f' && s[4] == 'i' && s[5]
            == 'g' && s[6] == ':' && s[7] == ' ');
    }
    lemma_no_feed("config: "@, rest);
    assert(lines[0] == line);
    lemma_lines(lines);
    assert(text::join(lines, '\n') == line);
    assert(lines.drop_last() =~= Seq::<Seq<char>>::empty());
    assert(router::read_lines(lines.drop_last()) == Ok::<Reading, RouterFault>(st));
}

/// A single value behind the key is a list of one name.
pub proof fn a_single_value_is_listed(written: Seq<char>, name: Seq<char>)
    requires
        stands_for(written, name),
        written[0] != '[',
    ensures
        router::table("config: "@ + written) == Ok::<Seq<ItemView>, RouterFault>(
            seq![ItemView { name, line: 0 }],
        ),
{
    lemma_written(written, name);
    lemma_after_key(written);
    assert(Seq::<ItemView>::empty() + seq![ItemView { name, line: 0 }] =~= seq![
        ItemView { name, line: 0 },
    ]);
}

proof fn lemma_flow_entries(padded: Seq<Seq<char>>, names: Seq<Seq<char>>, k: nat)
    requires
        k <= names.len() == padded.len(),
        forall|i: int| 0 <= i < names.len() ==> router::cleaned(#[trigger] padded[i]) == names[i]
            && names[i].len() > 0,
    ensures
        router::entries(padded.take(k as int), 0).len() == k,
        forall|i: int|
            0 <= i < k ==> (#[trigger] router::entries(padded.take(k as int), 0)[i]) == (
            ItemView { name: names[i], line: 0 }),
    decreases k,
{
    if k > 0 {
        let j = (k - 1) as nat;
        lemma_flow_entries(padded, names, j);
        assert(padded.take(k as int).drop_last() =~= padded.take(j as int));
        assert(padded.take(k as int).last() == padded[j as int]);
    }
}

/// A list in square brackets lists its names, whole and in their order, whatever
/// white space is around them; they all stand on the line of the key.
pub proof fn a_bracketed_list_lists_its_names(
    before: Seq<Seq<char>>,
    written: Seq<Seq<char>>,
    after: Seq<Seq<char>>,
    names: Seq<Seq<char>>,
)
    requires
        names.len() > 0,
        before.len() == names.len(),
        written.len() == names.len(),
        after.len() == names.len(),
        forall|i: int|
            0 <= i < names.len() ==> stands_for(#[trigger] written[i], names[i])
                && text_laws::all_white(before[i]) && text_laws::all_white(after[i])
                && !(before[i] + written[i] + after[i]).contains(',') && !(before[i] + written[i]
                + after[i]).contains('\n'),
    ensures
        ({
            let padded = Seq::new(
                names.len(),
                |i: int| before[i] + written[i] + after[i],
            );
            let s = "config: "@ + (seq!['['] + text::join(padded, ',') + seq![']']);
            &&& router::table(s) is Ok
            &&& router::table(s)->Ok_0.len() == names.len()
            &&& forall|i: int|
                0 <= i < names.len() ==> #[trigger] router::table(s)->Ok_0[i] == (ItemView {
                    name: names[i],
                    line: 0,
                })
        }),
{
    let n = names.len();
    let padded = Seq::new(n, |i: int| before[i] + written[i] + after[i]);
    let inner = text::join(padded, ',');
    let rest = seq!['['] + inner + seq![']'];
    assert forall|i: int| 0 <= i < n implies router::cleaned(#[trigger] padded[i]) == names[i]
        && names[i].len() > 0 && !padded[i].contains(',') && !padded[i].contains('\n') by {
        assert(stands_for(written[i], names[i]));
        names_are_kept_whole(before[i], written[i], after[i], names[i]);
        lemma_written(written[i], names[i]);
    }
    text::join_then_split(padded, ',');
    lemma_join_no_feed(padded, ',');
    assert(!seq!['['].contains('\n') && !seq![']'].contains('\n'));
    lemma_no_feed(seq!['['], inner);
    lemma_no_feed(seq!['['] + inner, seq![']']);
    assert(rest[0] == '[' && rest.last() == ']');
    lemma_after_key(rest);
    assert(rest.subrange(1, rest.len() - 1) =~= inner);
    lemma_flow_entries(padded, names, n);
    assert(padded.take(n as int) =~= padded);
    let items = router::entries(padded, 0);
    assert(Seq::<ItemView>::empty() + items =~= items);
}

proof fn lemma_join_no_feed(list: Seq<Seq<char>>, sep: char)
    requires
        sep != '\n',
        forall|i: int| 0 <= i < list.len() ==> !(#[trigger] list[i]).contains('\n'),
    ensures
        !text::join(list, sep).contains('\n'),
    decreases list.len(),
{
    if list.len() == 1 {
        assert(!list[0].contains('\n'));
    } else if list.len() > 1 {
        let init = list.drop_last();
        assert forall|i: int| 0 <= i < init.len() implies !(#[trigger] init[i]).contains('\n') by {
            assert(init[i] == list[i]);
        }
        lemma_join_no_feed(init, sep);
        let head = text::join(init, sep);
        assert(head.push(sep) =~= head + seq![sep]);
        assert(!seq![sep].contains('\n'));
        lemma_no_feed(head, seq![sep]);
        assert(!list[list.len() - 1].contains('\n'));
        lemma_no_feed(head.push(sep), list.last());
    }
}

// ---------------------------------------------------------------------------
// Other lines
// ---------------------------------------------------------------------------

/// Blank lines and comments say nothing, wherever they stand.
pub proof fn blank_lines_and_comments_say_nothing(
    st: Reading,
    before: Seq<char>,
    comment: Seq<char>,
    line: nat,
)
    requires
        text_laws::all_white(before),
    ensures
        router::line_read(st, before, line) == Ok::<Reading, RouterFault>(st),
        router::line_read(st, before + (seq!['#'] + comment), line) == Ok::<Reading, RouterFault>(
            st,
        ),
{
    let none = Seq::<char>::empty();
    text_laws::trimming_takes_only_the_ends(before, none, none);
    assert(before + none + none =~= before);
    let raw = before + (seq!['#'] + comment);
    let t = text::trim_start(raw);
    lemma_trim_start_at(before, seq!['#'] + comment);
    assert(t == seq!['#'] + comment);
    lemma_trim_end_keeps_first(t);
}

proof fn lemma_trim_start_at(before: Seq<char>, s: Seq<char>)
    requires
        text_laws::all_white(before),
        s.len() > 0,
        !text::is_white(s[0]),
    ensures
        text::trim_start(before + s) == s,
    decreases before.len(),
{
    if before.len() == 0 {
        assert(before + s =~= s);
    } else {
        assert((before + s)[0] == before[0]);
        assert((before + s).skip(1) =~= before.skip(1) + s);
        lemma_trim_start_at(before.skip(1), s);
    }
}

proof fn lemma_trim_end_keeps_first(s: Seq<char>)
    requires
        s.len() > 0,
        !text::is_white(s[0]),
    ensures
        text::trim_end(s).len() > 0,
        text::trim_end(s)[0] == s[0],
    decreases s.len(),
{
    if text::is_white(s.last()) {
        assert(s.len() > 1);
        lemma_trim_end_keeps_first(s.drop_last());
    }
}

/// A line that is neither blank nor a comment, neither the key nor a list item,
/// makes the file no table; so does a list item that belongs to no list, and a
/// second key. The line is told, counted from one.
pub proof fn stray_lines_are_refused(
    st: Reading,
    before: Seq<char>,
    t: Seq<char>,
    after: Seq<char>,
    line: nat,
)
    requires
        text_laws::all_white(before),
        text_laws::all_white(after),
        text_laws::no_white_ends(t),
        t.len() > 0,
        t[0] != '#',
    ensures
        ({
            let r = router::line_read(st, before + t + after, line);
            let key = t.len() >= 7 && t.take(7) == "config:"@;
            &&& key && st.saw_config ==> r == Err::<Reading, RouterFault>(
                RouterFault::SecondKey { line: line + 1 },
            )
            &&& !key && !st.in_config ==> r == Err::<Reading, RouterFault>(
                RouterFault::Unknown { line: line + 1, text: t },
            )
            &&& !key && st.in_config && t[0] != '-' ==> r == Err::<Reading, RouterFault>(
                RouterFault::NoItem { line: line + 1, text: t },
            )
            &&& r is Ok ==> key || t[0] == '-'
        }),
{
    reveal_strlit("config:");
    text_laws::trimming_takes_only_the_ends(before, t, after);
}

/// What is wrong with a line is wrong with the whole file: nothing after it can
/// mend it.
pub proof fn one_bad_line_spoils_the_table(lines: Seq<Seq<char>>, k: int)
    requires
        0 <= k <= lines.len(),
        router::read_lines(lines.take(k)) is Err,
    ensures
        router::read_lines(lines) == router::read_lines(lines.take(k)),
    decreases lines.len() - k,
{
    if k < lines.len() {
        assert(lines.take(k + 1).drop_last() =~= lines.take(k));
        one_bad_line_spoils_the_table(lines, k + 1);
    } else {
        assert(lines.take(k) =~= lines);
    }
}

/// A list in square brackets has to be closed on its line.
pub proof fn brackets_have_to_be_closed(rest: Seq<char>)
    requires
        rest.len() > 0,
        text_laws::no_white_ends(rest),
        !rest.contains('\n'),
        rest[0] == '[',
        rest.last() != ']',
    ensures
        router::table("config: "@ + rest) == Err::<Seq<ItemView>, RouterFault>(
            RouterFault::Unclosed { line: 1 },
        ),
{
    lemma_after_key(rest);
}

/// A list on the line of the key ends there: a list item below it belongs to no
/// list, and neither does anything else.
pub proof fn a_list_on_the_line_of_the_key_ends_there(rest: Seq<char>, t: Seq<char>)
    requires
        rest.len() > 0,
        text_laws::no_white_ends(rest),
        !rest.contains('\n'),
        rest[0] == '[' ==> rest.last() == ']',
        t.len() > 0,
        text_laws::no_white_ends(t),
        !t.contains('\n'),
        t[0] != '#',
        !(t.len() >= 7 && t.take(7) == "config:"@),
    ensures
        router::table(text::join(seq!["config: "@ + rest, t], '\n')) == Err::<
            Seq<ItemView>,
            RouterFault,
        >(RouterFault::Unknown { line: 2, text: t }),
{
    let key = "config: "@ + rest;
    let lines = seq![key, t];
    let none = Seq::<char>::empty();
    lemma_after_key(rest);
    assert(lines.drop_last() =~= seq![key]);
    assert(router::read_lines(seq![key]) is Ok);
    let st = router::read_lines(seq![key])->Ok_0;
    assert(none + t + none =~= t);
    stray_lines_are_refused(st, none, t, none, 1);
    assert(!key.contains('\n')) by {
        reveal_strlit("config: ");
        lemma_no_feed("config: "@, rest);
    }
    assert(key.last() == rest.last());
    lemma_lines(lines);
}

/// A file without an entry is no table.
pub proof fn a_table_has_an_entry(s: Seq<char>)
    ensures
        router::table(s) matches Ok(items) ==> items.len() > 0,
        router::table(Seq::<char>::empty()) == Err::<Seq<ItemView>, RouterFault>(
            RouterFault::NoEntry,
        ),
        router::table("config:"@) == Err::<Seq<ItemView>, RouterFault>(RouterFault::NoEntry),
{
    let none = Seq::<char>::empty();
    assert(text::split(none, '\n') =~= seq![none]);
    assert(text::lines(none) =~= Seq::<Seq<char>>::empty());
    lemma_block(seq![], seq![], seq![], 0);
    lemma_key_line();
    let lines = seq!["config:"@];
    assert(block_lines(seq![], seq![], 0) =~= lines);
    assert(lines[0] == "config:"@);
    lemma_lines(lines);
    assert(text::join(lines, '\n') == "config:"@);
    assert(block_items(seq![], 0).len() == 0);
}

/// The file of an entry is the one that an absolute name gives; any other name
/// is taken from the directory of the table.
pub proof fn names_lead_from_the_table(name: Seq<char>, beside: Seq<char>)
    ensures
        router::located(true, name, beside) == name,
        router::located(false, name, beside) == beside,
{
}

/// An item may follow its dash without a space, and then further dashes do not
/// belong to its name either.
pub proof fn a_dash_needs_no_space(
    st: Reading,
    indent: Seq<char>,
    dashes: Seq<char>,
    written: Seq<char>,
    name: Seq<char>,
    line: nat,
)
    requires
        st.in_config,
        text_laws::all_white(indent),
        dashes.len() > 0,
        forall|i: int| 0 <= i < dashes.len() ==> #[trigger] dashes[i] == '-',
        stands_for(written, name),
        written[0] != '-',
    ensures
        router::line_read(st, indent + (dashes + written), line) == Ok::<Reading, RouterFault>(
            Reading { items: st.items.push(ItemView { name, line }), ..st },
        ),
{
    reveal_strlit("- ");
    reveal_strlit("config:");
    lemma_written(written, name);
    let t = dashes + written;
    let none = Seq::<char>::empty();
    assert(indent + t =~= indent + t + none);
    assert(t[0] == dashes[0]);
    assert(t.last() == written.last());
    text_laws::trimming_takes_only_the_ends(indent, t, none);
    assert(!text::starts_with(t, "config:"@)) by {
        if text::starts_with(t, "config:"@) {
            assert(t.take(7)[0] == "config:"@[0]);
        }
    }
    assert(!text::starts_with(t, "- "@)) by {
        if text::starts_with(t, "- "@) {
            assert(t.take(2)[1] == "- "@[1]);
            if dashes.len() > 1 {
                assert(t[1] == dashes[1]);
            } else {
                assert(t[1] == written[0]);
            }
        }
    }
    text_laws::leading_dashes_are_taken(dashes, written);
    assert(st.items + seq![ItemView { name, line }] =~= st.items.push(ItemView { name, line }));
}

// ---------------------------------------------------------------------------
// Markers
// ---------------------------------------------------------------------------

/// A comment that begins with one of the two markers, however it is indented, is
/// a marker; a line that begins otherwise is none.
pub proof fn markers_are_told_by_their_beginning(before: Seq<char>, t: Seq<char>)
    requires
        text_laws::all_white(before),
        t.len() > 0,
        text_laws::no_white_ends(t),
    ensures
        router::is_marker(before + t) <==> (t.len() >= 6 && t.take(6) == "# [无效]"@) || (t.len()
            >= 11 && t.take(11) == "# [invalid]"@),
{
    reveal_strlit("# [无效]");
    reveal_strlit("# [invalid]");
    let none = Seq::<char>::empty();
    text_laws::trimming_takes_only_the_ends(before, t, none);
    assert(before + t + none =~= before + t);
}

/// The lines of the file are kept, in their order: only markers are taken out and
/// put in.
pub proof fn marking_keeps_the_other_lines(
    lines: Seq<Seq<char>>,
    m: Seq<(nat, Seq<char>)>,
    k: nat,
)
    requires
        k <= lines.len(),
        forall|i: int| 0 <= i < m.len() ==> router::is_marker((#[trigger] m[i]).1),
    ensures
        router::marked(lines, m, k).filter(|line: Seq<char>| !router::is_marker(line))
            == lines.take(k as int).filter(|line: Seq<char>| !router::is_marker(line)),
    decreases k,
{
    let other = |line: Seq<char>| !router::is_marker(line);
    if k == 0 {
        assert(lines.take(0) =~= router::marked(lines, m, 0));
    } else {
        let i = (k - 1) as nat;
        let line = lines[i as int];
        marking_keeps_the_other_lines(lines, m, i);
        assert(lines.take(k as int) =~= lines.take(i as int) + seq![line]);
        Seq::filter_distributes_over_add(lines.take(i as int), seq![line], other);
        lemma_filter_one(line, other);
        if !router::is_marker(line) {
            let before = router::marked(lines, m, i);
            let comments = router::markers_for(m, i);
            Seq::filter_distributes_over_add(before + comments, seq![line], other);
            Seq::filter_distributes_over_add(before, comments, other);
            lemma_markers_filtered(m, i);
            assert(before.filter(other) + Seq::<Seq<char>>::empty() =~= before.filter(other));
        } else {
            assert(lines.take(i as int).filter(other) + Seq::<Seq<char>>::empty()
                =~= lines.take(i as int).filter(other));
        }
    }
}

proof fn lemma_filter_one(line: Seq<char>, keep: spec_fn(Seq<char>) -> bool)
    ensures
        seq![line].filter(keep) == if keep(line) {
            seq![line]
        } else {
            seq![]
        },
{
    reveal(Seq::filter);
    let none = Seq::<Seq<char>>::empty();
    assert(seq![line].drop_last() =~= none);
    assert(none.filter(keep) =~= none);
    if keep(line) {
        assert(none.push(line) =~= seq![line]);
    }
}

proof fn lemma_markers_filtered(m: Seq<(nat, Seq<char>)>, line: nat)
    requires
        forall|i: int| 0 <= i < m.len() ==> router::is_marker((#[trigger] m[i]).1),
    ensures
        router::markers_for(m, line).filter(|line: Seq<char>| !router::is_marker(line)) == Seq::<
            Seq<char>,
        >::empty(),
    decreases m.len(),
{
    let other = |line: Seq<char>| !router::is_marker(line);
    reveal(Seq::filter);
    if m.len() > 0 {
        let init = m.drop_last();
        assert forall|i: int| 0 <= i < init.len() implies router::is_marker(
            (#[trigger] init[i]).1,
        ) by {
            assert(init[i] == m[i]);
        }
        lemma_markers_filtered(init, line);
        if m.last().0 == line {
            let last = m[m.len() - 1].1;
            let before = router::markers_for(init, line);
            assert(before.push(last).drop_last() =~= before);
            assert(!other(last));
        }
    }
}

/// The lines are put together again with line feeds between them; the last one
/// gets one as well exactly where the text ended with one.
pub proof fn the_last_line_feed_is_kept(s: Seq<char>, m: Seq<(nat, Seq<char>)>)
    ensures
        ({
            let lines = text::lines(s);
            let out = text::join(router::marked(lines, m, lines.len()), '\n');
            &&& s.len() > 0 && s.last() == '\n' ==> router::rewritten(s, m) == out.push('\n')
            &&& s.len() == 0 || s.last() != '\n' ==> router::rewritten(s, m) == out
        }),
{
}

} // verus!
