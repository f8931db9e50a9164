//! The two interface languages.
//!
//! Messages are written in Chinese and in English side by side at the place
//! where they are used, and the current language picks one. Configuration keys
//! and binding names are identifiers, not messages, and are never translated.
//!
//! The language-switch entry shows the language that one would switch to: it is
//! the message `("Switch Language", "语言切换")`, whose Chinese side is written
//! in English and whose English side is written in Chinese.

use vstd::prelude::*;

use crate::text;

verus! {

/// A supported language.
#[derive(Clone, Copy, PartialEq, Eq, Debug, Structural)]
pub enum Lang {
    /// Simplified Chinese.
    Zh,
    /// English.
    En,
}

/// Where the current language is kept: the language of the whole program, and a
/// local override that hides it while it is set.
#[derive(Clone, Copy, PartialEq, Eq, Debug, Structural)]
pub struct LangState {
    pub global: Lang,
    pub local: Option<Lang>,
}

impl LangState {
    /// The language in force.
    pub open spec fn current(self) -> Lang {
        match self.local {
            Some(l) => l,
            None => self.global,
        }
    }

    /// The state after the language was set to `l`.
    pub open spec fn with(self, l: Lang) -> LangState {
        match self.local {
            Some(_) => LangState { global: self.global, local: Some(l) },
            None => LangState { global: l, local: None },
        }
    }

    /// English, with no override.
    pub fn new() -> (r: LangState)
        ensures
            r == (LangState { global: Lang::En, local: None }),
            r.current() == Lang::En,
    {
        LangState { global: Lang::En, local: None }
    }
}

impl Lang {
    /// The opposite language.
    pub open spec fn opposite(self) -> Lang {
        match self {
            Lang::Zh => Lang::En,
            Lang::En => Lang::Zh,
        }
    }

    /// Reads the current language: the override where one is set, else the
    /// language of the program.
    pub fn get(state: &LangState) -> (r: Lang)
        ensures
            r == state.current(),
    {
        match state.local {
            Some(l) => l,
            None => state.global,
        }
    }

    /// Sets the current language: in the override where one is set, else for
    /// the program.
    pub fn set(self, state: &mut LangState)
        ensures
            *final(state) == old(state).with(self),
            final(state).current() == self,
    {
        if state.local.is_some() {
            state.local = Some(self);
        } else {
            state.global = self;
        }
    }

    /// Sets the override.
    pub fn test_set(self, state: &mut LangState)
        ensures
            final(state).local == Some(self),
            final(state).global == old(state).global,
    {
        state.local = Some(self);
    }

    /// Clears the override, so that the language of the program shows again.
    pub fn test_clear(state: &mut LangState)
        ensures
            final(state).local is None,
            final(state).global == old(state).global,
    {
        state.local = None;
    }

    /// The opposite language.
    pub fn other(self) -> (r: Lang)
        ensures
            r == self.opposite(),
    {
        match self {
            Lang::Zh => Lang::En,
            Lang::En => Lang::Zh,
        }
    }

    /// Switches to the opposite language and returns it.
    pub fn toggle(state: &mut LangState) -> (r: Lang)
        ensures
            r == old(state).current().opposite(),
            *final(state) == old(state).with(r),
    {
        let new = Lang::get(state).other();
        new.set(state);
        new
    }
}

/// Two switches lead back to the state before them.
pub proof fn toggle_twice_restores(state: LangState)
    ensures
        ({
            let once = state.with(state.current().opposite());
            once.current() != state.current() && once.with(once.current().opposite()) == state
        }),
{
}

/// While an override is set, setting the language leaves the language of the
/// program alone.
pub proof fn override_isolates(state: LangState, l: Lang)
    requires
        state.local is Some,
    ensures
        state.with(l).global == state.global,
        state.with(l).current() == l,
{
}

// ---------------------------------------------------------------------------
// Messages
// ---------------------------------------------------------------------------

/// The side of a message that the language picks.
pub open spec fn pick(lang: Lang, zh: Seq<char>, en: Seq<char>) -> Seq<char> {
    match lang {
        Lang::Zh => zh,
        Lang::En => en,
    }
}

/// The template with its placeholders `{}` replaced, from left to right, by the
/// arguments in their order. Arguments beyond the last placeholder are ignored;
/// placeholders beyond the last argument stay as they are.
pub open spec fn fill(template: Seq<char>, args: Seq<Seq<char>>) -> Seq<char>
    decreases template.len(),
{
    if template.len() == 0 {
        Seq::<char>::empty()
    } else if template.len() >= 2 && template[0] == '{' && template[1] == '}' {
        if args.len() > 0 {
            args[0] + fill(template.skip(2), args.skip(1))
        } else {
            seq!['{', '}'] + fill(template.skip(2), args)
        }
    } else {
        seq![template[0]] + fill(template.skip(1), args)
    }
}

/// The message in the given language, with its placeholders filled.
pub open spec fn message(
    lang: Lang,
    zh: Seq<char>,
    en: Seq<char>,
    args: Seq<Seq<char>>,
) -> Seq<char> {
    fill(pick(lang, zh, en), args)
}

/// A template that is filled with no arguments stays as it is.
pub proof fn fill_nothing(template: Seq<char>)
    ensures
        fill(template, Seq::<Seq<char>>::empty()) == template,
    decreases template.len(),
{
    let none = Seq::<Seq<char>>::empty();
    if template.len() > 0 {
        if template.len() >= 2 && template[0] == '{' && template[1] == '}' {
            fill_nothing(template.skip(2));
            assert(seq!['{', '}'] + template.skip(2) =~= template);
        } else {
            fill_nothing(template.skip(1));
            assert(seq![template[0]] + template.skip(1) =~= template);
        }
    }
}

/// Picks the side of a message that the language asks for.
pub fn tr(lang: Lang, zh: &'static str, en: &'static str) -> (r: &'static str)
    ensures
        r@ == pick(lang, zh@, en@),
{
    match lang {
        Lang::Zh => zh,
        Lang::En => en,
    }
}

/// Picks the side of a message that the language asks for and fills its
/// placeholders with the arguments in their order.
pub fn fmt(lang: Lang, zh: &'static str, en: &'static str, args: &[String]) -> (r: String)
    ensures
        r@ == message(lang, zh@, en@, text::views(args@)),
{
    let t = text::chars_of(tr(lang, zh, en));
    let ghost whole = pick(lang, zh@, en@);
    let ghost all = text::views(args@);
    let mut out: String = String::new();
    let mut i: usize = 0;
    let mut k: usize = 0;
    proof {
        assert(whole.skip(0) =~= whole);
        assert(all.skip(0) =~= all);
        assert(out@ + fill(whole, all) =~= fill(whole, all));
    }
    while i < t.len()
        invariant
            i <= t@.len(),
            k <= args@.len(),
            t@ == whole,
            all == text::views(args@),
            fill(whole, all) == out@ + fill(whole.skip(i as int), all.skip(k as int)),
        decreases t@.len() - i,
    {
        let ghost before = out@;
        let ghost rest = whole.skip(i as int);
        let ghost left = all.skip(k as int);
        if i + 1 < t.len() && t[i] == '{' && t[i + 1] == '}' {
            proof {
                assert(rest.skip(2) =~= whole.skip(i + 2));
            }
            if k < args.len() {
                out.append(args[k].as_str());
                proof {
                    assert(left.skip(1) =~= all.skip(k + 1));
                    assert(left[0] == all[k as int]);
                    assert(before + (left[0] + fill(rest.skip(2), left.skip(1))) =~= out@ + fill(
                        rest.skip(2),
                        left.skip(1),
                    ));
                }
                k = k + 1;
            } else {
                out.push('{');
                out.push('}');
                proof {
                    assert(before + (seq!['{', '}'] + fill(rest.skip(2), left)) =~= out@ + fill(
                        rest.skip(2),
                        left,
                    ));
                }
            }
            i = i + 2;
        } else {
            out.push(t[i]);
            proof {
                assert(rest.skip(1) =~= whole.skip(i + 1));
                assert(before + (seq![rest[0]] + fill(rest.skip(1), left)) =~= out@ + fill(
                    rest.skip(1),
                    left,
                ));
            }
            i = i + 1;
        }
    }
    proof {
        assert(whole.skip(i as int).len() == 0);
        assert(out@ + Seq::<char>::empty() =~= out@);
    }
    out
}

/// `fmt` with one argument.
pub fn fmt1(lang: Lang, zh: &'static str, en: &'static str, a: &str) -> (r: String)
    ensures
        r@ == message(lang, zh@, en@, seq![a@]),
{
    let args: Vec<String> = vec![a.to_string()];
    proof {
        assert(text::views(args@) =~= seq![a@]);
    }
    fmt(lang, zh, en, args.as_slice())
}

/// `fmt` with two arguments.
pub fn fmt2(lang: Lang, zh: &'static str, en: &'static str, a: &str, b: &str) -> (r: String)
    ensures
        r@ == message(lang, zh@, en@, seq![a@, b@]),
{
    let args: Vec<String> = vec![a.to_string(), b.to_string()];
    proof {
        assert(text::views(args@) =~= seq![a@, b@]);
    }
    fmt(lang, zh, en, args.as_slice())
}

/// `fmt` with three arguments.
pub fn fmt3(lang: Lang, zh: &'static str, en: &'static str, a: &str, b: &str, c: &str) -> (r:
    String)
    ensures
        r@ == message(lang, zh@, en@, seq![a@, b@, c@]),
{
    let args: Vec<String> = vec![a.to_string(), b.to_string(), c.to_string()];
    proof {
        assert(text::views(args@) =~= seq![a@, b@, c@]);
    }
    fmt(lang, zh, en, args.as_slice())
}

// ---------------------------------------------------------------------------
// Choosing the language at startup
// ---------------------------------------------------------------------------

/// The language that a name stands for. White space around the name and the
/// case of its ASCII letters do not matter.
pub open spec fn lang_named(v: Seq<char>) -> Option<Lang> {
    let n = text::lower(text::trim(v));
    if n == "zh"@ || n == "zh-cn"@ || n == "zh_cn"@ || n == "zh-sg"@ || n == "chinese"@ || n
        == "中文"@ {
        Some(Lang::Zh)
    } else if n == "en"@ || n == "en-us"@ || n == "en_us"@ || n == "en-gb"@ || n == "english"@ || n
        == "英文"@ {
        Some(Lang::En)
    } else {
        None
    }
}

/// Reads a language name.
pub fn parse_lang(v: &str) -> (r: Option<Lang>)
    ensures
        r == lang_named(v@),
{
    let t = text::trimmed(v);
    let s = text::to_lower(t.as_str());
    let n = s.as_str();
    if text::same_text(n, "zh") || text::same_text(n, "zh-cn") || text::same_text(n, "zh_cn")
        || text::same_text(n, "zh-sg") || text::same_text(n, "chinese") || text::same_text(n, "中文") {
        Some(Lang::Zh)
    } else if text::same_text(n, "en") || text::same_text(n, "en-us") || text::same_text(n, "en_us")
        || text::same_text(n, "en-gb") || text::same_text(n, "english") || text::same_text(
        n,
        "英文",
    ) {
        Some(Lang::En)
    } else {
        None
    }
}

/// The language that the arguments from position `i` on ask for. `--lang` and
/// `-lang` take the argument after them as the name, and the search goes on
/// where that is no language; `--lang=` and `--lang:` are followed by the name
/// itself and end the search.
pub open spec fn lang_requested(args: Seq<Seq<char>>, i: nat) -> Option<Lang>
    decreases args.len() + 2 - i,
{
    if i >= args.len() {
        None
    } else {
        let a = args[i as int];
        if a == "--lang"@ || a == "-lang"@ {
            if i + 1 < args.len() && lang_named(args[i as int + 1]) is Some {
                lang_named(args[i as int + 1])
            } else {
                lang_requested(args, i + 2)
            }
        } else if text::starts_with(a, "--lang="@) {
            lang_named(a.skip("--lang="@.len() as int))
        } else if text::starts_with(a, "--lang:"@) {
            lang_named(a.skip("--lang:"@.len() as int))
        } else {
            lang_requested(args, i + 1)
        }
    }
}

/// Looks for a language in the arguments of the program, the first of which is
/// the name of the program itself.
pub fn parse_cli_lang(args: &[String]) -> (r: Option<Lang>)
    ensures
        r == lang_requested(text::views(args@), 1),
{
    let ghost all = text::views(args@);
    let mut i: usize = 1;
    while i < args.len()
        invariant
            1 <= i,
            all == text::views(args@),
            lang_requested(all, 1) == lang_requested(all, i as nat),
        decreases args@.len() - i,
    {
        let a = args[i].as_str();
        proof {
            assert(all[i as int] == a@);
        }
        if text::same_text(a, "--lang") || text::same_text(a, "-lang") {
            if i + 1 < args.len() {
                proof {
                    assert(all[i + 1] == args@[i + 1]@);
                }
                let named = parse_lang(args[i + 1].as_str());
                if named.is_some() {
                    return named;
                }
                i = i + 2;
            } else {
                proof {
                    assert(lang_requested(all, i as nat + 2) is None);
                }
                return None;
            }
        } else if let Some(v) = text::after_prefix(a, "--lang=") {
            return parse_lang(v.as_str());
        } else if let Some(v) = text::after_prefix(a, "--lang:") {
            return parse_lang(v.as_str());
        } else {
            i = i + 1;
        }
    }
    None
}

/// The language that the environment and the arguments impose: what the
/// environment variable names, else what the arguments ask for.
pub open spec fn lang_imposed(env: Option<Seq<char>>, args: Seq<Seq<char>>) -> Option<Lang> {
    if env is Some && lang_named(env->0) is Some {
        lang_named(env->0)
    } else {
        lang_requested(args, 1)
    }
}

/// Applies the language that the environment variable or the arguments impose.
/// Where they impose none, the language is left to the session or the default.
pub fn init(env: Option<String>, args: &[String], state: &mut LangState) -> (r: Option<Lang>)
    ensures
        r == lang_imposed(text::opt_view(env), text::views(args@)),
        *final(state) == (match r {
            Some(l) => old(state).with(l),
            None => *old(state),
        }),
{
    if let Some(v) = &env {
        let named = parse_lang(v.as_str());
        if let Some(l) = named {
            l.set(state);
            return Some(l);
        }
    }
    let asked = parse_cli_lang(args);
    if let Some(l) = asked {
        l.set(state);
        return Some(l);
    }
    None
}

/// A language name may be written in any mixture of upper and lower case.
pub proof fn lang_names_ignore_case(a: Seq<char>, b: Seq<char>)
    requires
        text::lower(a) == text::lower(b),
    ensures
        lang_named(a) == lang_named(b),
{
    text::lemma_lower_of_trim(a);
    text::lemma_lower_of_trim(b);
}

/// A placeholder is replaced by the next argument: what stands before it and what
/// stands behind it stays, and the arguments are used in their order.
pub proof fn placeholders_are_filled_in_order(
    before: Seq<char>,
    arg: Seq<char>,
    behind: Seq<char>,
    rest: Seq<Seq<char>>,
)
    requires
        !before.contains('{'),
    ensures
        fill(before + seq!['{', '}'] + behind, seq![arg] + rest) == before + arg + fill(
            behind,
            rest,
        ),
        fill(before, rest) == before,
    decreases before.len(),
{
    let all = before + seq!['{', '}'] + behind;
    let args = seq![arg] + rest;
    if before.len() == 0 {
        assert(all[0] == '{' && all[1] == '}');
        assert(all.skip(2) =~= behind);
        assert(args.skip(1) =~= rest);
        assert(before + arg + fill(behind, rest) =~= arg + fill(behind, rest));
        assert(fill(before, rest) =~= before);
    } else {
        let tail = before.skip(1);
        assert(before.contains(before[0]));
        assert forall|i: int| 0 <= i < tail.len() implies tail[i] != '{' by {
            assert(before.contains(before[i + 1]));
        }
        placeholders_are_filled_in_order(tail, arg, behind, rest);
        assert(all[0] == before[0]);
        assert(all.skip(1) =~= tail + seq!['{', '}'] + behind);
        assert(seq![before[0]] + (tail + arg + fill(behind, rest)) =~= before + arg + fill(
            behind,
            rest,
        ));
        assert(seq![before[0]] + tail =~= before);
    }
}

/// A message is the side of its language.
pub proof fn each_language_has_its_side(zh: Seq<char>, en: Seq<char>, args: Seq<Seq<char>>)
    ensures
        pick(Lang::Zh, zh, en) == zh,
        pick(Lang::En, zh, en) == en,
        message(Lang::Zh, zh, en, args) == fill(zh, args),
        message(Lang::En, zh, en, args) == fill(en, args),
{
}

/// Exactly these names stand for a language, in any case and with white space
/// around them.
pub proof fn languages_have_their_names(v: Seq<char>)
    ensures
        ({
            let n = text::lower(text::trim(v));
            &&& lang_named(v) == Some(Lang::Zh) <==> n == "zh"@ || n == "zh-cn"@ || n == "zh_cn"@
                || n == "zh-sg"@ || n == "chinese"@ || n == "中文"@
            &&& lang_named(v) == Some(Lang::En) <==> n == "en"@ || n == "en-us"@ || n == "en_us"@
                || n == "en-gb"@ || n == "english"@ || n == "英文"@
        }),
{
    reveal_strlit("zh");
    reveal_strlit("zh-cn");
    reveal_strlit("zh_cn");
    reveal_strlit("zh-sg");
    reveal_strlit("chinese");
    reveal_strlit("中文");
    reveal_strlit("en");
    reveal_strlit("en-us");
    reveal_strlit("en_us");
    reveal_strlit("en-gb");
    reveal_strlit("english");
    reveal_strlit("英文");
    assert("zh"@[0] == 'z' && "zh-cn"@[0] == 'z' && "zh_cn"@[0] == 'z' && "zh-sg"@[0] == 'z'
        && "chinese"@[0] == 'c' && "中文"@[0] == '中');
    assert("en"@[0] == 'e' && "en-us"@[0] == 'e' && "en_us"@[0] == 'e' && "en-gb"@[0] == 'e'
        && "english"@[0] == 'e' && "英文"@[0] == '英');
}

/// An argument that has nothing to do with the language.
pub open spec fn is_other_argument(a: Seq<char>) -> bool {
    a != "--lang"@ && a != "-lang"@ && !text::starts_with(a, "--lang="@) && !text::starts_with(
        a,
        "--lang:"@,
    )
}

proof fn lemma_other_arguments(args: Seq<Seq<char>>, i: nat, k: nat)
    requires
        i <= k <= args.len(),
        forall|j: int| i <= j < k ==> is_other_argument(#[trigger] args[j]),
    ensures
        lang_requested(args, i) == lang_requested(args, k),
    decreases k - i,
{
    if i < k {
        assert(is_other_argument(args[i as int]));
        lemma_other_arguments(args, i + 1, k);
    }
}

/// The language is asked for by `--lang` or `-lang` and its name as the next
/// argument, or by `--lang=` or `--lang:` and the name behind it, wherever that
/// stands among other arguments. Without such an argument none is asked for.
pub proof fn arguments_ask_for_a_language(args: Seq<Seq<char>>, k: nat, name: Seq<char>)
    requires
        1 <= k <= args.len(),
        forall|j: int| 1 <= j < k ==> is_other_argument(#[trigger] args[j]),
    ensures
        k == args.len() ==> lang_requested(args, 1) is None,
        k + 1 < args.len() && (args[k as int] == "--lang"@ || args[k as int] == "-lang"@)
            && lang_named(args[k as int + 1]) is Some ==> lang_requested(args, 1) == lang_named(
            args[k as int + 1],
        ),
        k < args.len() && args[k as int] == "--lang="@ + name ==> lang_requested(args, 1)
            == lang_named(name),
        k < args.len() && args[k as int] == "--lang:"@ + name ==> lang_requested(args, 1)
            == lang_named(name),
{
    lemma_other_arguments(args, 1, k);
    reveal_strlit("--lang");
    reveal_strlit("-lang");
    reveal_strlit("--lang=");
    reveal_strlit("--lang:");
    assert("--lang="@[6] == '=' && "--lang:"@[6] == ':');
    if k < args.len() {
        let a = args[k as int];
        if a == "--lang="@ + name {
            assert(a.take(7) =~= "--lang="@);
            assert(a.skip(7) =~= name);
            assert(a[6] == '=');
        }
        if a == "--lang:"@ + name {
            assert(a.take(7) =~= "--lang:"@);
            assert(a.skip(7) =~= name);
            assert(a[6] == ':');
            assert(a.take(7)[6] == ':');
        }
    }
}

proof fn lemma_arguments_moved(args: Seq<Seq<char>>, rest: Seq<Seq<char>>, i: nat)
    requires
        args.len() == rest.len() + 2,
        forall|j: int| i <= j < rest.len() ==> args[j + 2] == #[trigger] rest[j],
    ensures
        lang_requested(args, i + 2) == lang_requested(rest, i),
    decreases rest.len() + 2 - i,
{
    if i < rest.len() {
        assert(args[i as int + 2] == rest[i as int]);
        if i + 1 < rest.len() {
            assert(args[i as int + 3] == rest[i as int + 1]);
        }
        lemma_arguments_moved(args, rest, i + 1);
        lemma_arguments_moved(args, rest, i + 2);
    }
}

/// An argument behind `--lang` or `-lang` is the name of the language and nothing
/// else: where it names none, both count for nothing, whatever it looks like.
pub proof fn an_unknown_language_is_passed_over(args: Seq<Seq<char>>, k: nat)
    requires
        1 <= k,
        k + 1 < args.len(),
        forall|j: int| 1 <= j < k ==> is_other_argument(#[trigger] args[j]),
        args[k as int] == "--lang"@ || args[k as int] == "-lang"@,
        lang_named(args[k as int + 1]) is None,
    ensures
        lang_requested(args, 1) == lang_requested(
            args.take(k as int) + args.skip(k as int + 2),
            1,
        ),
{
    let rest = args.take(k as int) + args.skip(k as int + 2);
    lemma_other_arguments(args, 1, k);
    assert forall|j: int| 1 <= j < k implies is_other_argument(#[trigger] rest[j]) by {
        assert(rest[j] == args[j]);
    }
    lemma_other_arguments(rest, 1, k);
    lemma_arguments_moved(args, rest, k);
}

/// A language that the environment names is imposed before one that the
/// arguments ask for; a name that is none counts for nothing.
pub proof fn the_environment_goes_first(env: Option<Seq<char>>, args: Seq<Seq<char>>)
    ensures
        env is Some && lang_named(env->0) is Some ==> lang_imposed(env, args) == lang_named(
            env->0,
        ),
        env is None || lang_named(env->0) is None ==> lang_imposed(env, args) == lang_requested(
            args,
            1,
        ),
{
}

/// The override is the language in force while it is set, and is what a change
/// of the language goes to; without one the language of the program is.
pub proof fn the_override_comes_first(state: LangState, l: Lang)
    ensures
        state.local is Some ==> state.current() == state.local->0,
        state.local is None ==> state.current() == state.global,
        state.local is Some ==> state.with(l).local == Some(l) && state.with(l).global
            == state.global,
        state.local is None ==> state.with(l).local is None && state.with(l).global == l,
        Lang::En.opposite() == Lang::Zh,
        Lang::Zh.opposite() == Lang::En,
{
}

} // verus!
