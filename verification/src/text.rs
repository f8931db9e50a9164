//! Text on the level of characters.
//!
//! A string is modelled by the sequence of its characters. The spec functions
//! say what each operation gives on such a sequence; the executable functions
//! carry them out on strings.

use vstd::prelude::*;

verus! {

/// `String::push` of the standard library appends the given character to the
/// end of the string.
pub assume_specification[ String::push ](s: &mut String, c: char)
    ensures
        final(s)@ == old(s)@.push(c),
;

// ---------------------------------------------------------------------------
// Characters
// ---------------------------------------------------------------------------

/// The characters with the Unicode property `White_Space`.
pub open spec fn is_white(c: char) -> bool {
    ||| '\u{9}' <= c <= '\u{d}'
    ||| c == ' '
    ||| c == '\u{85}'
    ||| c == '\u{a0}'
    ||| c == '\u{1680}'
    ||| '\u{2000}' <= c <= '\u{200a}'
    ||| c == '\u{2028}'
    ||| c == '\u{2029}'
    ||| c == '\u{202f}'
    ||| c == '\u{205f}'
    ||| c == '\u{3000}'
}

/// Tells whether `c` is white space.
pub fn is_white_char(c: char) -> (r: bool)
    ensures
        r == is_white(c),
{
    ('\u{9}' <= c && c <= '\u{d}') || c == ' ' || c == '\u{85}' || c == '\u{a0}' || c == '\u{1680}'
        || ('\u{2000}' <= c && c <= '\u{200a}') || c == '\u{2028}' || c == '\u{2029}' || c
        == '\u{202f}' || c == '\u{205f}' || c == '\u{3000}'
}

pub open spec fn is_digit(c: char) -> bool {
    '0' <= c <= '9'
}

/// The ASCII letter `c` in upper case; any other character as it is.
pub open spec fn upper_char(c: char) -> char {
    if 'a' <= c && c <= 'z' {
        ((c as u8) - 32) as char
    } else {
        c
    }
}

/// The ASCII letter `c` in lower case; any other character as it is.
pub open spec fn lower_char(c: char) -> char {
    if 'A' <= c && c <= 'Z' {
        ((c as u8) + 32) as char
    } else {
        c
    }
}

pub open spec fn upper(s: Seq<char>) -> Seq<char> {
    s.map_values(|c: char| upper_char(c))
}

pub open spec fn lower(s: Seq<char>) -> Seq<char> {
    s.map_values(|c: char| lower_char(c))
}

fn to_upper_char(c: char) -> (r: char)
    ensures
        r == upper_char(c),
{
    if 'a' <= c && c <= 'z' {
        ((c as u8) - 32) as char
    } else {
        c
    }
}

fn to_lower_char(c: char) -> (r: char)
    ensures
        r == lower_char(c),
{
    if 'A' <= c && c <= 'Z' {
        ((c as u8) + 32) as char
    } else {
        c
    }
}

// ---------------------------------------------------------------------------
// Strings and character vectors
// ---------------------------------------------------------------------------

/// What the strings of a list hold.
pub open spec fn views(s: Seq<String>) -> Seq<Seq<char>> {
    s.map_values(|t: String| t@)
}

/// What an optional string holds.
pub open spec fn opt_view(s: Option<String>) -> Option<Seq<char>> {
    match s {
        Some(t) => Some(t@),
        None => None,
    }
}

/// A copy of an optional text.
pub fn copied(s: &Option<String>) -> (r: Option<String>)
    ensures
        opt_view(r) == opt_view(*s),
{
    match s {
        Some(x) => Some(x.clone()),
        None => None,
    }
}

/// What a result holds that carries nothing on success and a reason on failure.
pub open spec fn outcome_view(r: Result<(), String>) -> Result<(), Seq<char>> {
    match r {
        Ok(_) => Ok(()),
        Err(e) => Err(e@),
    }
}

/// The characters of `s`, one by one.
pub fn chars_of(s: &str) -> (r: Vec<char>)
    ensures
        r@ == s@,
{
    let mut out: Vec<char> = Vec::new();
    for c in it: s.chars()
        invariant
            it.seq() == s@,
            out@ == s@.take(it.index() as int),
    {
        out.push(c);
        proof {
            assert(s@.take(it.index() as int).push(c) =~= s@.take(it.index() + 1));
        }
    }
    proof {
        assert(s@.take(s@.len() as int) =~= s@);
    }
    out
}

/// The string that the characters `v[from..to]` spell.
pub fn string_of(v: &Vec<char>, from: usize, to: usize) -> (r: String)
    requires
        from <= to <= v@.len(),
    ensures
        r@ == v@.subrange(from as int, to as int),
{
    let mut out: String = String::new();
    let mut i: usize = from;
    while i < to
        invariant
            from <= i <= to <= v@.len(),
            out@ == v@.subrange(from as int, i as int),
        decreases to - i,
    {
        out.push(v[i]);
        proof {
            assert(v@.subrange(from as int, i as int).push(v@[i as int]) =~= v@.subrange(
                from as int,
                i + 1,
            ));
        }
        i = i + 1;
    }
    out
}

/// Tells whether two strings hold the same characters.
pub fn same_text(a: &str, b: &str) -> (r: bool)
    ensures
        r == (a@ == b@),
{
    let x = chars_of(a);
    let y = chars_of(b);
    same_chars(&x, &y)
}

/// Tells whether two character vectors are equal.
pub fn same_chars(x: &Vec<char>, y: &Vec<char>) -> (r: bool)
    ensures
        r == (x@ == y@),
{
    if x.len() != y.len() {
        return false;
    }
    let mut i: usize = 0;
    while i < x.len()
        invariant
            i <= x@.len() == y@.len(),
            forall|j: int| 0 <= j < i ==> x@[j] == y@[j],
        decreases x@.len() - i,
    {
        if x[i] != y[i] {
            return false;
        }
        i = i + 1;
    }
    proof {
        assert(x@ =~= y@);
    }
    true
}

/// `s` with its ASCII letters in upper case.
pub fn to_upper(s: &str) -> (r: String)
    ensures
        r@ == upper(s@),
{
    let v = chars_of(s);
    let mut out: String = String::new();
    let mut i: usize = 0;
    while i < v.len()
        invariant
            i <= v@.len(),
            v@ == s@,
            out@ == upper(s@.take(i as int)),
        decreases v@.len() - i,
    {
        out.push(to_upper_char(v[i]));
        i = i + 1;
        proof {
            assert(upper(s@.take(i as int)) =~= upper(s@.take(i - 1)).push(upper_char(s@[i - 1])));
        }
    }
    proof {
        assert(s@.take(i as int) =~= s@);
    }
    out
}

/// `s` with its ASCII letters in lower case.
pub fn to_lower(s: &str) -> (r: String)
    ensures
        r@ == lower(s@),
{
    let v = chars_of(s);
    let mut out: String = String::new();
    let mut i: usize = 0;
    while i < v.len()
        invariant
            i <= v@.len(),
            v@ == s@,
            out@ == lower(s@.take(i as int)),
        decreases v@.len() - i,
    {
        out.push(to_lower_char(v[i]));
        i = i + 1;
        proof {
            assert(lower(s@.take(i as int)) =~= lower(s@.take(i - 1)).push(lower_char(s@[i - 1])));
        }
    }
    proof {
        assert(s@.take(i as int) =~= s@);
    }
    out
}

/// `a` followed by `b`.
pub fn concat(a: &str, b: &str) -> (r: String)
    ensures
        r@ == a@ + b@,
{
    let mut out: String = a.to_string();
    out.append(b);
    out
}

/// `s` without its last character, where it has one.
pub open spec fn shorter(s: Seq<char>) -> Seq<char> {
    if s.len() == 0 {
        s
    } else {
        s.drop_last()
    }
}

/// Takes the last character away.
pub fn without_last(s: &str) -> (r: String)
    ensures
        r@ == shorter(s@),
{
    let v = chars_of(s);
    if v.len() == 0 {
        s.to_string()
    } else {
        proof {
            assert(v@.subrange(0, v@.len() - 1) =~= s@.drop_last());
        }
        string_of(&v, 0, v.len() - 1)
    }
}

/// Tells whether a character occurs in a text.
pub fn holds_char(s: &str, c: char) -> (r: bool)
    ensures
        r == s@.contains(c),
{
    let v = chars_of(s);
    let mut i: usize = 0;
    while i < v.len()
        invariant
            i <= v@.len(),
            v@ == s@,
            forall|j: int| 0 <= j < i ==> v@[j] != c,
        decreases v@.len() - i,
    {
        if v[i] == c {
            return true;
        }
        i = i + 1;
    }
    false
}

// ---------------------------------------------------------------------------
// Trimming, prefixes and suffixes
// ---------------------------------------------------------------------------

/// `s` without the white space at its start.
pub open spec fn trim_start(s: Seq<char>) -> Seq<char>
    decreases s.len(),
{
    if s.len() > 0 && is_white(s[0]) {
        trim_start(s.skip(1))
    } else {
        s
    }
}

/// `s` without the white space at its end.
pub open spec fn trim_end(s: Seq<char>) -> Seq<char>
    decreases s.len(),
{
    if s.len() > 0 && is_white(s.last()) {
        trim_end(s.drop_last())
    } else {
        s
    }
}

/// `s` without the white space at its start and at its end.
pub open spec fn trim(s: Seq<char>) -> Seq<char> {
    trim_end(trim_start(s))
}

/// `s` without the dashes at its start.
pub open spec fn trim_dashes(s: Seq<char>) -> Seq<char>
    decreases s.len(),
{
    if s.len() > 0 && s[0] == '-' {
        trim_dashes(s.skip(1))
    } else {
        s
    }
}

pub open spec fn starts_with(s: Seq<char>, p: Seq<char>) -> bool {
    p.len() <= s.len() && s.take(p.len() as int) == p
}

proof fn lemma_lower_of_trim_start(s: Seq<char>)
    ensures
        lower(trim_start(s)) == trim_start(lower(s)),
    decreases s.len(),
{
    if s.len() > 0 && is_white(s[0]) {
        lemma_lower_of_trim_start(s.skip(1));
        assert(lower(s).skip(1) =~= lower(s.skip(1)));
    }
}

proof fn lemma_lower_of_trim_end(s: Seq<char>)
    ensures
        lower(trim_end(s)) == trim_end(lower(s)),
    decreases s.len(),
{
    if s.len() > 0 && is_white(s.last()) {
        lemma_lower_of_trim_end(s.drop_last());
        assert(lower(s).drop_last() =~= lower(s.drop_last()));
    }
}

/// Trimming and lower case go together in either order.
pub proof fn lemma_lower_of_trim(s: Seq<char>)
    ensures
        lower(trim(s)) == trim(lower(s)),
{
    lemma_lower_of_trim_start(s);
    lemma_lower_of_trim_end(trim_start(s));
}

/// White space at the end makes no difference to the trimmed text.
pub proof fn lemma_trim_of_init(s: Seq<char>)
    requires
        s.len() > 0,
        is_white(s.last()),
    ensures
        trim(s.drop_last()) == trim(s),
    decreases s.len(),
{
    let t = s.drop_last();
    if is_white(s[0]) {
        if s.len() > 1 {
            assert(t.skip(1) =~= s.skip(1).drop_last());
            assert(s.skip(1).last() == s.last());
            lemma_trim_of_init(s.skip(1));
        } else {
            assert(s.skip(1) =~= t);
        }
    } else {
        assert(t.len() > 0 && t[0] == s[0]);
    }
}

/// Strips white space from both ends.
pub fn trimmed(s: &str) -> (r: String)
    ensures
        r@ == trim(s@),
{
    let v = chars_of(s);
    let mut lo: usize = 0;
    proof {
        assert(v@.skip(0) =~= v@);
    }
    while lo < v.len() && is_white_char(v[lo])
        invariant
            lo <= v@.len(),
            trim_start(v@) == trim_start(v@.skip(lo as int)),
        decreases v@.len() - lo,
    {
        proof {
            assert(v@.skip(lo as int).skip(1) =~= v@.skip(lo + 1));
        }
        lo = lo + 1;
    }
    let ghost mid = v@.skip(lo as int);
    let mut hi: usize = v.len();
    proof {
        assert(v@.subrange(lo as int, hi as int) =~= mid);
        assert(trim_start(v@) == mid);
    }
    while hi > lo && is_white_char(v[hi - 1])
        invariant
            lo <= hi <= v@.len(),
            trim_end(mid) == trim_end(v@.subrange(lo as int, hi as int)),
        decreases hi,
    {
        proof {
            assert(v@.subrange(lo as int, hi as int).drop_last() =~= v@.subrange(
                lo as int,
                hi - 1,
            ));
        }
        hi = hi - 1;
    }
    string_of(&v, lo, hi)
}

/// Strips all dashes from the start.
pub fn without_dashes(s: &str) -> (r: String)
    ensures
        r@ == trim_dashes(s@),
{
    let v = chars_of(s);
    let mut lo: usize = 0;
    proof {
        assert(v@.skip(0) =~= v@);
    }
    while lo < v.len() && v[lo] == '-'
        invariant
            lo <= v@.len(),
            trim_dashes(v@) == trim_dashes(v@.skip(lo as int)),
        decreases v@.len() - lo,
    {
        proof {
            assert(v@.skip(lo as int).skip(1) =~= v@.skip(lo + 1));
        }
        lo = lo + 1;
    }
    proof {
        assert(v@.subrange(lo as int, v@.len() as int) =~= v@.skip(lo as int));
    }
    string_of(&v, lo, v.len())
}

/// What follows the prefix `p` in `s`; nothing where `s` does not start with `p`.
pub fn after_prefix(s: &str, p: &str) -> (r: Option<String>)
    ensures
        match r {
            Some(rest) => starts_with(s@, p@) && rest@ == s@.skip(p@.len() as int),
            None => !starts_with(s@, p@),
        },
{
    let v = chars_of(s);
    let q = chars_of(p);
    if q.len() > v.len() {
        return None;
    }
    let mut i: usize = 0;
    while i < q.len()
        invariant
            i <= q@.len() <= v@.len(),
            v@ == s@,
            q@ == p@,
            forall|j: int| 0 <= j < i ==> v@[j] == q@[j],
        decreases q@.len() - i,
    {
        if v[i] != q[i] {
            proof {
                assert(s@.take(p@.len() as int)[i as int] != p@[i as int]);
            }
            return None;
        }
        i = i + 1;
    }
    proof {
        assert(s@.take(p@.len() as int) =~= p@);
        assert(v@.subrange(i as int, v@.len() as int) =~= s@.skip(p@.len() as int));
    }
    Some(string_of(&v, i, v.len()))
}

// ---------------------------------------------------------------------------
// Splitting and joining
// ---------------------------------------------------------------------------

/// The pieces of `s` between the occurrences of `sep`; there is always at
/// least one.
pub open spec fn split(s: Seq<char>, sep: char) -> Seq<Seq<char>>
    decreases s.len(),
{
    if s.len() == 0 {
        seq![Seq::<char>::empty()]
    } else {
        let done = split(s.drop_last(), sep);
        if s.last() == sep {
            done.push(Seq::<char>::empty())
        } else {
            done.drop_last().push(done.last().push(s.last()))
        }
    }
}

/// The pieces one after the other, with `sep` between neighbours.
pub open spec fn join(pieces: Seq<Seq<char>>, sep: char) -> Seq<char>
    decreases pieces.len(),
{
    if pieces.len() == 0 {
        Seq::<char>::empty()
    } else if pieces.len() == 1 {
        pieces[0]
    } else {
        join(pieces.drop_last(), sep).push(sep) + pieces.last()
    }
}

/// There is at least one piece.
pub proof fn lemma_split_some(s: Seq<char>, sep: char)
    ensures
        split(s, sep).len() >= 1,
    decreases s.len(),
{
    if s.len() > 0 {
        lemma_split_some(s.drop_last(), sep);
    }
}

/// Splitting loses nothing: joined with the separator, the pieces give the
/// text back, and no piece holds the separator.
pub proof fn split_then_join(s: Seq<char>, sep: char)
    ensures
        join(split(s, sep), sep) == s,
        forall|i: int|
            0 <= i < split(s, sep).len() ==> !(#[trigger] split(s, sep)[i]).contains(sep),
    decreases s.len(),
{
    lemma_split_some(s, sep);
    if s.len() > 0 {
        let t = s.drop_last();
        let done = split(t, sep);
        split_then_join(t, sep);
        lemma_split_some(t, sep);
        let all = split(s, sep);
        assert(s =~= t.push(s.last()));
        if s.last() == sep {
            assert(all.drop_last() =~= done);
            assert(join(all, sep) =~= s);
        } else {
            assert(all.drop_last() =~= done.drop_last());
            if done.len() == 1 {
                assert(join(all, sep) =~= s);
            } else {
                assert(join(done, sep) == join(done.drop_last(), sep).push(sep) + done.last());
                assert(join(all, sep) =~= s);
            }
            assert forall|i: int| 0 <= i < all.len() implies !(#[trigger] all[i]).contains(sep) by {
                if i < all.len() - 1 {
                    assert(all[i] == done[i]);
                } else {
                    let piece = done.last();
                    assert(!piece.contains(sep));
                    assert forall|k: int| 0 <= k < all[i].len() implies all[i][k] != sep by {
                        if k < piece.len() {
                            assert(all[i][k] == piece[k]);
                            assert(piece.contains(piece[k]));
                        }
                    }
                }
            }
        }
    }
}

proof fn lemma_split_longer(a: Seq<char>, b: Seq<char>, sep: char)
    requires
        !b.contains(sep),
    ensures
        split(a + b, sep) == split(a, sep).drop_last().push(split(a, sep).last() + b),
    decreases b.len(),
{
    lemma_split_some(a, sep);
    let done = split(a, sep);
    if b.len() == 0 {
        assert(a + b =~= a);
        assert(done.last() + b =~= done.last());
        assert(done.drop_last().push(done.last()) =~= done);
    } else {
        let c = b.drop_last();
        assert((a + b).drop_last() =~= a + c);
        assert((a + b).last() == b.last());
        assert(b.contains(b.last()));
        assert forall|k: int| 0 <= k < c.len() implies c[k] != sep by {
            assert(c[k] == b[k]);
            assert(b.contains(b[k]));
        }
        lemma_split_longer(a, c, sep);
        let before = split(a + c, sep);
        assert(before.drop_last() =~= done.drop_last());
        assert(before.last() == done.last() + c);
        assert((done.last() + c).push(b.last()) =~= done.last() + b);
    }
}

/// Joining loses nothing: cut at the separator, pieces that do not hold it are
/// found again.
pub proof fn join_then_split(list: Seq<Seq<char>>, sep: char)
    requires
        list.len() > 0,
        forall|i: int| 0 <= i < list.len() ==> !(#[trigger] list[i]).contains(sep),
    ensures
        split(join(list, sep), sep) == list,
    decreases list.len(),
{
    let last = list.last();
    assert(!list[list.len() - 1].contains(sep));
    if list.len() == 1 {
        let none = Seq::<char>::empty();
        lemma_split_longer(none, last, sep);
        assert(none + last =~= last);
        assert(split(none, sep) =~= seq![none]);
        assert(split(last, sep) =~= list);
    } else {
        let init = list.drop_last();
        assert forall|i: int| 0 <= i < init.len() implies !(#[trigger] init[i]).contains(sep) by {
            assert(init[i] == list[i]);
        }
        join_then_split(init, sep);
        let head = join(init, sep).push(sep);
        assert(head.drop_last() =~= join(init, sep));
        assert(split(head, sep) == init.push(Seq::<char>::empty()));
        lemma_split_longer(head, last, sep);
        assert(Seq::<char>::empty() + last =~= last);
        assert(init.push(Seq::<char>::empty()).drop_last() =~= init);
        assert(init.push(last) =~= list);
    }
}

/// Cuts `s` at every `sep`.
pub fn pieces(s: &str, sep: char) -> (r: Vec<String>)
    ensures
        views(r@) == split(s@, sep),
        r@.len() >= 1,
{
    let v = chars_of(s);
    let mut out: Vec<String> = Vec::new();
    let mut cur: String = String::new();
    let mut i: usize = 0;
    proof {
        assert(views(out@).push(cur@) =~= split(s@.take(0), sep));
    }
    while i < v.len()
        invariant
            i <= v@.len(),
            v@ == s@,
            views(out@).push(cur@) == split(s@.take(i as int), sep),
        decreases v@.len() - i,
    {
        let c = v[i];
        let ghost done = split(s@.take(i as int), sep);
        proof {
            assert(s@.take(i + 1).drop_last() =~= s@.take(i as int));
            assert(s@.take(i + 1).last() == c);
            assert(done.drop_last() =~= views(out@));
            assert(done.last() == cur@);
        }
        if c == sep {
            let ghost before = out@;
            out.push(cur);
            cur = String::new();
            proof {
                assert(views(out@) =~= done);
            }
        } else {
            cur.push(c);
        }
        i = i + 1;
    }
    let ghost before = out@;
    out.push(cur);
    proof {
        assert(s@.take(i as int) =~= s@);
        assert(views(out@) =~= views(before).push(cur@));
    }
    out
}

/// Puts the pieces one after the other, with `sep` between neighbours.
pub fn joined(list: &Vec<String>, sep: char) -> (r: String)
    ensures
        r@ == join(views(list@), sep),
{
    let mut out: String = String::new();
    let mut i: usize = 0;
    let ghost all = views(list@);
    while i < list.len()
        invariant
            i <= list@.len(),
            all == views(list@),
            out@ == join(all.take(i as int), sep),
        decreases list@.len() - i,
    {
        proof {
            assert(all.take(i + 1).drop_last() =~= all.take(i as int));
            assert(all.take(i + 1).last() == list@[i as int]@);
        }
        if i > 0 {
            out.push(sep);
        }
        out.append(list[i].as_str());
        proof {
            if i == 0 {
                assert(out@ =~= list@[0]@);
            }
        }
        i = i + 1;
    }
    proof {
        assert(all.take(i as int) =~= all);
    }
    out
}

/// A line without the carriage return at its end.
pub open spec fn without_return(line: Seq<char>) -> Seq<char> {
    if line.len() > 0 && line.last() == '\r' {
        line.drop_last()
    } else {
        line
    }
}

/// The lines of a text. A line ends with a line feed or with a carriage return
/// and a line feed, neither of which belongs to it; what follows the last line
/// feed is a line of its own unless it is empty.
pub open spec fn lines(s: Seq<char>) -> Seq<Seq<char>> {
    let p = split(s, '\n');
    let ended = p.drop_last().map_values(|line: Seq<char>| without_return(line));
    if p.last().len() == 0 {
        ended
    } else {
        ended.push(p.last())
    }
}

/// The lines of pieces that were joined by line feeds: the pieces themselves,
/// but for a carriage return at their end; an empty last one is no line.
pub proof fn lemma_lines_of_join(list: Seq<Seq<char>>)
    requires
        list.len() > 0,
        forall|i: int| 0 <= i < list.len() ==> !(#[trigger] list[i]).contains('\n'),
    ensures
        lines(join(list, '\n').push('\n')) == list.map_values(
            |line: Seq<char>| without_return(line),
        ),
        lines(join(list, '\n')) == if list.last().len() == 0 {
            list.drop_last().map_values(|line: Seq<char>| without_return(line))
        } else {
            list.drop_last().map_values(|line: Seq<char>| without_return(line)).push(list.last())
        },
{
    join_then_split(list, '\n');
    let ended = join(list, '\n').push('\n');
    assert(ended.drop_last() =~= join(list, '\n'));
    assert(split(ended, '\n') == list.push(Seq::<char>::empty()));
    assert(list.push(Seq::<char>::empty()).drop_last() =~= list);
}

/// No line of a text holds a line feed.
pub proof fn lemma_lines_whole(s: Seq<char>)
    ensures
        forall|i: int| 0 <= i < lines(s).len() ==> !(#[trigger] lines(s)[i]).contains('\n'),
{
    split_then_join(s, '\n');
    lemma_split_some(s, '\n');
    let p = split(s, '\n');
    assert forall|i: int| 0 <= i < lines(s).len() implies !(#[trigger] lines(s)[i]).contains(
        '\n',
    ) by {
        assert(!p[i].contains('\n'));
        let line = lines(s)[i];
        assert forall|k: int| 0 <= k < line.len() implies line[k] != '\n' by {
            assert(line[k] == p[i][k]);
            assert(p[i].contains(p[i][k]));
        }
    }
}

fn drop_return(line: &str) -> (r: String)
    ensures
        r@ == without_return(line@),
{
    let v = chars_of(line);
    if v.len() > 0 && v[v.len() - 1] == '\r' {
        proof {
            assert(v@.subrange(0, v@.len() - 1) =~= line@.drop_last());
        }
        string_of(&v, 0, v.len() - 1)
    } else {
        line.to_string()
    }
}

/// Cuts a text into its lines.
pub fn lines_of(s: &str) -> (r: Vec<String>)
    ensures
        views(r@) == lines(s@),
{
    let p = pieces(s, '\n');
    let ghost all = split(s@, '\n');
    let mut out: Vec<String> = Vec::new();
    let mut i: usize = 0;
    let ghost ended = all.drop_last().map_values(|line: Seq<char>| without_return(line));
    while i < p.len() - 1
        invariant
            i <= p@.len() - 1,
            p@.len() >= 1,
            all == views(p@),
            ended == all.drop_last().map_values(|line: Seq<char>| without_return(line)),
            views(out@) == ended.take(i as int),
        decreases p@.len() - i,
    {
        let line = drop_return(p[i].as_str());
        let ghost before = out@;
        out.push(line);
        proof {
            assert(views(out@) =~= views(before).push(line@));
            assert(ended[i as int] == without_return(all[i as int]));
            assert(ended.take(i + 1) =~= ended.take(i as int).push(ended[i as int]));
        }
        i = i + 1;
    }
    proof {
        assert(ended.take(i as int) =~= ended);
        assert(all.last() == p@[i as int]@);
    }
    if !p[i].as_str().is_empty() {
        let ghost before = out@;
        out.push(p[i].clone());
        proof {
            assert(views(out@) =~= views(before).push(all.last()));
        }
    }
    out
}

// ---------------------------------------------------------------------------
// Numbers
// ---------------------------------------------------------------------------

pub open spec fn digit_char(d: nat) -> char {
    (('0' as u8) + d) as char
}

/// The decimal notation of `n`, without leading zeros.
pub open spec fn decimal(n: nat) -> Seq<char>
    decreases n,
{
    if n < 10 {
        seq![digit_char(n)]
    } else {
        decimal(n / 10).push(digit_char(n % 10))
    }
}

pub open spec fn all_digits(s: Seq<char>) -> bool {
    forall|i: int| 0 <= i < s.len() ==> is_digit(#[trigger] s[i])
}

/// The number that a sequence of digits denotes.
pub open spec fn digits_value(s: Seq<char>) -> nat
    decreases s.len(),
{
    if s.len() == 0 {
        0
    } else {
        digits_value(s.drop_last()) * 10 + ((s.last() as u32) - ('0' as u32)) as nat
    }
}

/// The number that `s` denotes: one or more digits, after an optional plus sign.
pub open spec fn number(s: Seq<char>) -> Option<nat> {
    let body = if s.len() > 0 && s[0] == '+' {
        s.skip(1)
    } else {
        s
    };
    if body.len() > 0 && all_digits(body) {
        Some(digits_value(body))
    } else {
        None
    }
}

/// The number that `s` denotes, where it denotes one that fits in 64 bits.
pub open spec fn number_u64(s: Seq<char>) -> Option<u64> {
    match number(s) {
        Some(n) => if n <= u64::MAX {
            Some(n as u64)
        } else {
            None
        },
        None => None,
    }
}

/// Writes a number in decimal notation.
pub fn decimal_of(n: u64) -> (r: String)
    ensures
        r@ == decimal(n as nat),
    decreases n,
{
    if n < 10 {
        let mut out: String = String::new();
        out.push((48u8 + (n as u8)) as char);
        proof {
            assert(out@ =~= seq![digit_char(n as nat)]);
        }
        out
    } else {
        let mut out = decimal_of(n / 10);
        out.push((48u8 + ((n % 10) as u8)) as char);
        out
    }
}

/// Reads a number; nothing where the text denotes none or one that does not
/// fit in 64 bits.
pub fn parse_number(s: &str) -> (r: Option<u64>)
    ensures
        r == number_u64(s@),
{
    let v = chars_of(s);
    let mut i: usize = 0;
    if v.len() > 0 && v[0] == '+' {
        i = 1;
    }
    let start: usize = i;
    let ghost body = v@.skip(start as int);
    proof {
        assert(v@.skip(0) =~= v@);
    }
    if i == v.len() {
        return None;
    }
    let mut n: u64 = 0;
    let mut fits: bool = true;
    proof {
        assert(body.take(0) =~= Seq::<char>::empty());
    }
    while i < v.len()
        invariant
            start <= i <= v@.len(),
            start < v@.len(),
            v@ == s@,
            start == (if s@.len() > 0 && s@[0] == '+' {
                1int
            } else {
                0int
            }),
            body == v@.skip(start as int),
            body.len() > 0,
            body == (if s@.len() > 0 && s@[0] == '+' {
                s@.skip(1)
            } else {
                s@
            }),
            forall|j: int| 0 <= j < i - start ==> is_digit(#[trigger] body[j]),
            fits ==> n == digits_value(body.take(i - start)),
            !fits ==> digits_value(body.take(i - start)) > u64::MAX,
        decreases v@.len() - i,
    {
        let c = v[i];
        proof {
            assert(body[i - start] == c);
            assert(body.take(i + 1 - start).drop_last() =~= body.take(i - start));
            assert(body.take(i + 1 - start).last() == c);
        }
        if !('0' <= c && c <= '9') {
            return None;
        }
        let d: u64 = ((c as u32) - 48) as u64;
        if fits {
            if n > 1844674407370955161 || (n == 1844674407370955161 && d > 5) {
                fits = false;
            } else {
                n = n * 10 + d;
            }
        }
        i = i + 1;
    }
    proof {
        assert(body.take(i - start) =~= body);
    }
    if fits {
        Some(n)
    } else {
        None
    }
}

/// Reading undoes writing: the decimal notation of a 64-bit number denotes it.
pub proof fn number_of_decimal(n: u64)
    ensures
        number_u64(decimal(n as nat)) == Some(n),
{
    lemma_decimal(n as nat);
    let s = decimal(n as nat);
    assert(s[0] != '+') by {
        assert(is_digit(s[0]));
    }
}

/// The decimal notation of a number: digits that denote it.
pub proof fn lemma_decimal(n: nat)
    ensures
        decimal(n).len() > 0,
        all_digits(decimal(n)),
        digits_value(decimal(n)) == n,
    decreases n,
{
    let s = decimal(n);
    if n < 10 {
        assert(s.drop_last() =~= Seq::<char>::empty());
        assert(digits_value(s.drop_last()) == 0);
    } else {
        lemma_decimal(n / 10);
        assert(s.drop_last() =~= decimal(n / 10));
        assert forall|i: int| 0 <= i < s.len() implies is_digit(#[trigger] s[i]) by {
            if i < s.len() - 1 {
                assert(s[i] == decimal(n / 10)[i]);
            }
        }
    }
}

} // verus!
