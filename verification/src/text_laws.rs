//! What the operations on text do, stated by how a text is put together.

use vstd::prelude::*;

use crate::text;

verus! {

/// Every character is white space.
pub open spec fn all_white(s: Seq<char>) -> bool {
    forall|i: int| 0 <= i < s.len() ==> text::is_white(#[trigger] s[i])
}

/// There is no white space at either end.
pub open spec fn no_white_ends(s: Seq<char>) -> bool {
    s.len() > 0 ==> !text::is_white(s[0]) && !text::is_white(s.last())
}

proof fn lemma_trim_start(before: Seq<char>, s: Seq<char>)
    requires
        all_white(before),
    ensures
        text::trim_start(before + s) == text::trim_start(s),
    decreases before.len(),
{
    if before.len() == 0 {
        assert(before + s =~= s);
    } else {
        assert((before + s)[0] == before[0]);
        assert((before + s).skip(1) =~= before.skip(1) + s);
        lemma_trim_start(before.skip(1), s);
    }
}

proof fn lemma_trim_end(s: Seq<char>, after: Seq<char>)
    requires
        all_white(after),
    ensures
        text::trim_end(s + after) == text::trim_end(s),
    decreases after.len(),
{
    if after.len() == 0 {
        assert(s + after =~= s);
    } else {
        assert((s + after).last() == after[after.len() - 1]);
        assert((s + after).drop_last() =~= s + after.drop_last());
        lemma_trim_end(s, after.drop_last());
    }
}

/// Trimming takes the white space around a text away and nothing else: what is
/// inside stays as it is.
pub proof fn trimming_takes_only_the_ends(before: Seq<char>, s: Seq<char>, after: Seq<char>)
    requires
        all_white(before),
        all_white(after),
        no_white_ends(s),
    ensures
        text::trim(before + s + after) == s,
{
    assert(before + s + after =~= before + (s + after));
    lemma_trim_start(before, s + after);
    if s.len() > 0 {
        assert((s + after)[0] == s[0]);
        lemma_trim_end(s, after);
    } else {
        assert(s + after =~= after);
        assert(after + Seq::<char>::empty() =~= after);
        lemma_trim_start(after, Seq::<char>::empty());
        assert(text::trim_start(Seq::<char>::empty()) =~= s);
    }
}

/// In ASCII, white space is the space and the characters from the tabulator to
/// the carriage return.
pub proof fn white_space_in_ascii(c: char)
    requires
        c < '\u{80}',
    ensures
        text::is_white(c) <==> c == ' ' || c == '\t' || c == '\n' || c == '\u{b}' || c == '\u{c}'
            || c == '\r',
{
}

/// Upper and lower case change the 26 letters of ASCII and nothing else, each
/// character by itself.
pub proof fn case_changes_letters_only(s: Seq<char>, i: int)
    requires
        0 <= i < s.len(),
    ensures
        text::upper(s).len() == s.len(),
        text::lower(s).len() == s.len(),
        'a' <= s[i] <= 'z' ==> text::upper(s)[i] as u32 + 32 == s[i] as u32,
        !('a' <= s[i] <= 'z') ==> text::upper(s)[i] == s[i],
        'A' <= s[i] <= 'Z' ==> text::lower(s)[i] as u32 == s[i] as u32 + 32,
        !('A' <= s[i] <= 'Z') ==> text::lower(s)[i] == s[i],
{
}

/// A digit at the end of a number counts one, and what stands before it ten
/// times as much.
pub proof fn digits_count_by_their_place(s: Seq<char>, d: nat)
    requires
        text::all_digits(s),
        d < 10,
    ensures
        ({
            let c = ((48 + d) as u8) as char;
            &&& text::digits_value(Seq::<char>::empty()) == 0
            &&& text::digits_value(s.push(c)) == text::digits_value(s) * 10 + d
            &&& text::number(s.push(c)) == Some(text::digits_value(s) * 10 + d)
        }),
{
    let c = ((48 + d) as u8) as char;
    let t = s.push(c);
    assert(t.drop_last() =~= s);
    assert forall|i: int| 0 <= i < t.len() implies text::is_digit(#[trigger] t[i]) by {
        if i < s.len() {
            assert(t[i] == s[i]);
        }
    }
    assert(text::is_digit(t[0]));
}

/// A text with any other character, but for a plus sign at the start, is no
/// number, and neither is one without a digit.
pub proof fn other_characters_make_no_number(s: Seq<char>, i: int)
    requires
        s.len() == 0 || (s.len() == 1 && s[0] == '+') || (0 <= i < s.len() && !('0' <= s[i]
            <= '9') && !(i == 0 && s[i] == '+')),
    ensures
        text::number(s) is None,
        text::number_u64(s) is None,
{
    if s.len() > 0 && s[0] == '+' {
        if s.len() > 1 {
            assert(s.skip(1)[i - 1] == s[i]);
        }
    }
}

/// A plus sign before a number makes no difference, and a number is read exactly
/// as long as it fits in 64 bits.
pub proof fn numbers_fit_or_are_refused(s: Seq<char>)
    requires
        s.len() > 0,
        text::all_digits(s),
    ensures
        text::number(seq!['+'] + s) == text::number(s),
        text::number_u64(s) == if text::digits_value(s) <= 0xffff_ffff_ffff_ffff {
            Some(text::digits_value(s) as u64)
        } else {
            None
        },
{
    assert((seq!['+'] + s).skip(1) =~= s);
    assert(text::is_digit(s[0]));
}

/// A number is written without leading zeros.
pub proof fn numbers_have_no_leading_zero(n: nat)
    requires
        n > 0,
    ensures
        text::decimal(n)[0] != '0',
    decreases n,
{
    if n >= 10 {
        numbers_have_no_leading_zero(n / 10);
        text::lemma_decimal(n / 10);
        assert(text::decimal(n)[0] == text::decimal(n / 10)[0]);
    }
}

/// Dashes are taken away from the start, all of them and nothing else.
pub proof fn leading_dashes_are_taken(dashes: Seq<char>, s: Seq<char>)
    requires
        forall|i: int| 0 <= i < dashes.len() ==> #[trigger] dashes[i] == '-',
        s.len() > 0 ==> s[0] != '-',
    ensures
        text::trim_dashes(dashes + s) == s,
    decreases dashes.len(),
{
    if dashes.len() == 0 {
        assert(dashes + s =~= s);
    } else {
        assert((dashes + s)[0] == dashes[0]);
        assert((dashes + s).skip(1) =~= dashes.skip(1) + s);
        leading_dashes_are_taken(dashes.skip(1), s);
    }
}

/// A text starts with another one exactly where it is that one with something
/// behind it.
pub proof fn a_prefix_is_followed_by_the_rest(s: Seq<char>, p: Seq<char>, rest: Seq<char>)
    ensures
        text::starts_with(p + rest, p),
        text::starts_with(s, p) ==> s == p + s.skip(p.len() as int),
{
    assert((p + rest).take(p.len() as int) =~= p);
    if text::starts_with(s, p) {
        assert(s =~= s.take(p.len() as int) + s.skip(p.len() as int));
    }
}

/// A line may end with a carriage return, which does not belong to it: one is
/// dropped, and no other character is.
pub proof fn one_carriage_return_is_dropped(line: Seq<char>)
    ensures
        text::without_return(line.push('\r')) == line,
        line.len() == 0 || line.last() != '\r' ==> text::without_return(line) == line,
{
    assert(line.push('\r').drop_last() =~= line);
}

} // verus!
