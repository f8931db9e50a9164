//! What the operations with files and dialogs do from their first request to
//! their end, stated by what the state holds before and after.

use vstd::prelude::*;

use crate::config;
use crate::config::ConfigView;
use crate::flow;
use crate::flow::{ReplyView, RequestView};
use crate::lang::{Lang, LangState};
use crate::session;
use crate::session::SessionView;
use crate::state;
use crate::state::{AppView, CallerView, DialogKind, EntryView, GoalView, MsgKind, TaskView};
use crate::text;
use crate::watcher::Mtime;

verus! {

// ---------------------------------------------------------------------------
// The session
// ---------------------------------------------------------------------------

/// What is saved with the session: the active configuration file, the router
/// table, the position in it and the language, as they are at that moment.
pub proof fn the_session_remembers_the_state(s: AppView)
    ensures
        s.wanted() matches Some(RequestView::SaveSession { state }) ==> {
            &&& state.last_config == s.config_source
            &&& state.last_router == s.router_path
            &&& state.router_index == s.router_index
            &&& state.language == Some(s.lang.current())
        },
        s.session().last_config == s.config_source,
        s.session().last_router == s.router_path,
        s.session().router_index == s.router_index,
        s.session().language == Some(s.lang.current()),
{
}

/// The session file is in the user's profile, else in the home directory, else in
/// the working directory.
pub proof fn the_session_file_is_at_home(profile: Seq<char>, home: Option<Seq<char>>)
    ensures
        session::home_of(Some(profile), home) == profile,
        home is Some ==> session::home_of(None, home) == home->0,
        session::home_of(None, None) == "."@,
{
}

/// A program that starts has the default configuration, no file and no router
/// table, and nothing to do.
pub proof fn a_fresh_program_is_empty(lang: LangState)
    ensures
        ({
            let s = state::fresh(lang);
            &&& s.cfg == config::default_config()
            &&& s.shared == config::default_config()
            &&& s.lang == lang
            &&& s.config_source is None
            &&& s.watched is None
            &&& s.config_mtime is None
            &&& s.router_path is None
            &&& s.router_files.len() == 0
            &&& s.router_index == 0
            &&& s.focus == 0
            &&& s.mode is Normal
            &&& s.status is None
            &&& !s.should_quit
            &&& s.wanted() is None
        }),
{
}

// ---------------------------------------------------------------------------
// Dialogs
// ---------------------------------------------------------------------------

/// A dialog is opened with the active file; where it is cancelled, that is told
/// and nothing else changes.
pub proof fn a_cancelled_dialog_changes_nothing(s: AppView, kind: DialogKind)
    requires
        s.task is Idle,
    ensures
        ({
            let open = s.at(TaskView::Pick { kind });
            let after = open.resumed(ReplyView::Picked(None));
            &&& open.wanted() == Some(RequestView::Pick { kind, source: s.config_source })
            &&& after == (AppView { status: after.status, ..s })
            &&& after.status matches Some(m)
            &&& m.kind == MsgKind::Info
        }),
{
    reveal(AppView::resumed_picked);
}

/// An export writes the configuration that is in use to the chosen file, and
/// nothing but the message changes: the active file stays the active one.
pub proof fn an_export_writes_a_copy(s: AppView, path: Seq<char>, r: Result<(), Seq<char>>)
    requires
        s.task is Idle,
    ensures
        ({
            let chosen = s.at(TaskView::Pick { kind: DialogKind::Export }).resumed(
                ReplyView::Picked(Some(path)),
            );
            let after = chosen.resumed(ReplyView::Done(r));
            &&& chosen.wanted() == Some(RequestView::SaveConfig { path, cfg: s.cfg })
            &&& after == (AppView { status: after.status, ..s })
            &&& after.status matches Some(m)
            &&& m.kind == if r is Ok {
                MsgKind::Success
            } else {
                MsgKind::Failure
            }
        }),
{
    reveal(AppView::resumed_picked);
    reveal(AppView::resumed_done);
}

/// A configuration that the user chose is read from the chosen file. Where it
/// keeps the rules it is in use from then on, the file is the active one, and
/// the session is saved; the router table and the position in it stay.
#[verifier::rlimit(30)]
pub proof fn a_chosen_file_is_loaded(
    s: AppView,
    path: Seq<char>,
    c: ConfigView,
    t: Option<Mtime>,
)
    requires
        s.task is Idle,
        config::keeps_the_rules(c),
    ensures
        ({
            let chosen = s.at(TaskView::Pick { kind: DialogKind::Load }).resumed(
                ReplyView::Picked(Some(path)),
            );
            let read = chosen.resumed(ReplyView::Loaded(Ok(c)));
            let stamped = read.resumed(ReplyView::Stamp(t));
            let after = stamped.resumed(ReplyView::Done(Ok(())));
            &&& chosen.wanted() == Some(RequestView::LoadConfig { path })
            &&& read.wanted() == Some(RequestView::Stat { path })
            &&& stamped.wanted() matches Some(RequestView::SaveSession { state })
            &&& state.last_config == Some(path)
            &&& state.last_router == s.router_path
            &&& state.router_index == s.router_index
            &&& after == (AppView {
                cfg: c,
                shared: c,
                config_source: Some(path),
                watched: Some(path),
                config_mtime: t,
                status: after.status,
                ..s
            })
            &&& after.status matches Some(m)
            &&& m.kind == MsgKind::Success
        }),
{
    config::the_rules_decide(s.l(), c, Seq::<char>::empty());
    let goal = GoalView::LoadDialog;
    let chosen = s.at(TaskView::Pick { kind: DialogKind::Load }).resumed(
        ReplyView::Picked(Some(path)),
    );
    assert(chosen == s.at(TaskView::ApplyLoad { path, goal })) by {
        reveal(AppView::resumed_picked);
    }
    lemma_applied(s, path, goal, c, t, Ok(()));
}

/// A chosen file that cannot be read or does not keep the rules changes nothing
/// but the message.
pub proof fn a_bad_file_is_not_loaded(
    s: AppView,
    path: Seq<char>,
    r: Result<ConfigView, Seq<char>>,
)
    requires
        s.task is Idle,
        r matches Ok(c) ==> !config::keeps_the_rules(c),
    ensures
        ({
            let after = s.at(TaskView::Pick { kind: DialogKind::Load }).resumed(
                ReplyView::Picked(Some(path)),
            ).resumed(ReplyView::Loaded(r));
            &&& after == (AppView { status: after.status, ..s })
            &&& after.status matches Some(m)
            &&& m.kind == MsgKind::Failure
        }),
{
    match r {
        Ok(c) => config::the_rules_decide(s.l(), c, Seq::<char>::empty()),
        Err(e) => {},
    }
    reveal(AppView::resumed_picked);
    reveal(AppView::resumed_loaded);
}

/// Where a configuration is applied: the steps from the read file on.
proof fn lemma_applied(
    s: AppView,
    path: Seq<char>,
    goal: GoalView,
    c: ConfigView,
    t: Option<Mtime>,
    r: Result<(), Seq<char>>,
)
    requires
        config::admitted(s.l(), Ok(c)) == Ok::<ConfigView, Seq<char>>(c),
    ensures
        ({
            let asked = s.at(TaskView::ApplyLoad { path, goal });
            let read = asked.resumed(ReplyView::Loaded(Ok(c)));
            let stamped = read.resumed(ReplyView::Stamp(t));
            let used = AppView {
                cfg: c,
                shared: c,
                config_source: Some(path),
                watched: Some(path),
                config_mtime: t,
                ..s
            }.at(TaskView::ApplySession { path, goal });
            &&& read == (AppView {
                cfg: c,
                config_source: Some(path),
                watched: Some(path),
                ..s
            }).at(TaskView::ApplyStat { path, goal })
            &&& stamped == used
            &&& stamped.resumed(ReplyView::Done(r)) == used.session_saved(r).applied(path, goal)
        }),
{
    let asked = s.at(TaskView::ApplyLoad { path, goal });
    let read = asked.resumed(ReplyView::Loaded(Ok(c)));
    assert(read == asked.apply_loaded(path, goal, Ok(c))) by {
        reveal(AppView::resumed_loaded);
    }
    let stamped = read.resumed(ReplyView::Stamp(t));
    assert(stamped == read.apply_stamped(path, goal, t)) by {
        reveal(AppView::resumed_stamped);
    }
    assert(stamped.resumed(ReplyView::Done(r)) == stamped.session_saved(r).applied(path, goal))
        by {
        reveal(AppView::resumed_done);
    }
}

// ---------------------------------------------------------------------------
// Edits
// ---------------------------------------------------------------------------

/// An edit is written to the active file, or to `zwtcfg.json` where there is
/// none, and then handed to the engine; nothing else changes but the time of the
/// file, and a message where it could not be written.
pub proof fn an_edit_is_written_and_handed_on(
    s: AppView,
    r: Result<(), Seq<char>>,
    t: Option<Mtime>,
)
    requires
        s.task is AutoSave,
    ensures
        ({
            let path = if s.config_source is Some {
                s.config_source->0
            } else {
                "zwtcfg.json"@
            };
            let written = s.resumed(ReplyView::Done(r));
            let after = written.resumed(ReplyView::Stamp(t));
            &&& s.wanted() == Some(RequestView::SaveConfig { path, cfg: s.cfg })
            &&& s.config_source is Some ==> written.wanted() == Some(RequestView::Stat { path })
            &&& s.config_source is None ==> written.wanted() is None
            &&& after == (AppView {
                shared: s.cfg,
                config_mtime: if s.config_source is Some {
                    t
                } else {
                    None
                },
                status: after.status,
                task: TaskView::Idle,
                ..s
            })
            &&& r is Ok ==> after.status == s.status
            &&& r is Err ==> (after.status matches Some(m) && m.kind == MsgKind::Failure)
        }),
{
    reveal(AppView::resumed_done);
    reveal(AppView::resumed_stamped);
}

// ---------------------------------------------------------------------------
// The router table
// ---------------------------------------------------------------------------

/// A router table is read from the chosen file.
pub proof fn the_chosen_table_is_read(s: AppView, table: Seq<char>)
    ensures
        ({
            let chosen = s.at(TaskView::Pick { kind: DialogKind::Router }).resumed(
                ReplyView::Picked(Some(table)),
            );
            &&& chosen == s.at(TaskView::TableRead { table, caller: CallerView::Dialog })
            &&& chosen.wanted() == Some(RequestView::ReadText { path: table })
        }),
{
    reveal(AppView::resumed_picked);
}

/// `i` is the first usable entry.
pub open spec fn is_first_usable(entries: Seq<EntryView>, i: int) -> bool {
    &&& 0 <= i < entries.len()
    &&& entries[i].valid
    &&& forall|j: int| 0 <= j < i ==> !(#[trigger] entries[j]).valid
}

proof fn lemma_first_usable(entries: Seq<EntryView>, i: int, k: nat)
    requires
        is_first_usable(entries, i),
        k <= i,
        entries.len() <= usize::MAX,
    ensures
        flow::usable_from(entries, k) == Some(i as usize),
    decreases i - k,
{
    if k < i {
        assert(!entries[k as int].valid);
        lemma_first_usable(entries, i, k + 1);
    }
}

proof fn lemma_none_usable(entries: Seq<EntryView>, k: nat)
    requires
        forall|j: int| 0 <= j < entries.len() ==> !(#[trigger] entries[j]).valid,
        k <= entries.len(),
    ensures
        flow::usable_from(entries, k) is None,
    decreases entries.len() - k,
{
    if k < entries.len() {
        assert(!entries[k as int].valid);
        lemma_none_usable(entries, k + 1);
    }
}

/// A table whose entries were checked is in use from then on, and its first
/// usable entry is read and, where it keeps the rules, used as well; then the
/// session is saved, and how many entries cannot be used is told.
#[verifier::rlimit(30)]
pub proof fn a_checked_table_is_used(
    s: AppView,
    table: Seq<char>,
    entries: Seq<EntryView>,
    i: int,
    c: ConfigView,
    t: Option<Mtime>,
)
    requires
        is_first_usable(entries, i),
        entries.len() <= usize::MAX,
        config::keeps_the_rules(c),
    ensures
        ({
            let path = entries[i].path;
            let accepted = s.table_accepted(table, entries, CallerView::Dialog);
            let read = accepted.resumed(ReplyView::Loaded(Ok(c)));
            let stamped = read.resumed(ReplyView::Stamp(t));
            let applied = stamped.resumed(ReplyView::Done(Ok(())));
            let after = applied.resumed(ReplyView::Done(Ok(())));
            &&& accepted.wanted() == Some(RequestView::LoadConfig { path })
            &&& read.wanted() == Some(RequestView::Stat { path })
            &&& applied.wanted() matches Some(RequestView::SaveSession { state })
            &&& state.last_config == Some(path)
            &&& state.last_router == Some(table)
            &&& state.router_index == i
            &&& after == (AppView {
                cfg: c,
                shared: c,
                config_source: Some(path),
                watched: Some(path),
                config_mtime: t,
                router_files: entries,
                router_path: Some(table),
                router_index: i as usize,
                status: after.status,
                task: TaskView::Idle,
                ..s
            })
        }),
{
    config::the_rules_decide(s.l(), c, Seq::<char>::empty());
    lemma_first_usable(entries, i, 0);
    let path = entries[i].path;
    let caller = CallerView::Dialog;
    let goal = GoalView::FirstOfTable { table, caller };
    let with = AppView {
        router_files: entries,
        router_path: Some(table),
        router_index: i as usize,
        ..s
    };
    let accepted = s.table_accepted(table, entries, caller);
    assert(accepted == with.at(TaskView::ApplyLoad { path, goal }));
    lemma_applied(with, path, goal, c, t, Ok(()));
    let read = accepted.resumed(ReplyView::Loaded(Ok(c)));
    let stamped = read.resumed(ReplyView::Stamp(t));
    let applied = stamped.resumed(ReplyView::Done(Ok(())));
    assert(applied.task == (TaskView::TableSession { table, caller }));
    let after = applied.resumed(ReplyView::Done(Ok(())));
    assert(after == applied.table_loaded(table, caller)) by {
        reveal(AppView::resumed_done);
    }
}

/// A table without a usable entry is in use as well: the configuration stays, and
/// the session is saved.
pub proof fn a_table_may_have_no_usable_entry(
    s: AppView,
    table: Seq<char>,
    entries: Seq<EntryView>,
)
    requires
        forall|j: int| 0 <= j < entries.len() ==> !(#[trigger] entries[j]).valid,
    ensures
        ({
            let accepted = s.table_accepted(table, entries, CallerView::Dialog);
            let after = accepted.resumed(ReplyView::Done(Ok(())));
            &&& accepted.wanted() matches Some(RequestView::SaveSession { state })
            &&& state.last_router == Some(table)
            &&& after == (AppView {
                router_files: entries,
                router_path: Some(table),
                status: after.status,
                task: TaskView::Idle,
                ..s
            })
        }),
{
    lemma_none_usable(entries, 0);
    reveal(AppView::resumed_done);
}

/// A table that cannot be read, parsed or written changes nothing but the
/// message.
pub proof fn a_bad_table_changes_nothing(
    s: AppView,
    table: Seq<char>,
    r: Result<Seq<char>, Seq<char>>,
    content: Seq<char>,
    entries: Seq<EntryView>,
    e: Seq<char>,
)
    requires
        s.task is Idle,
        r matches Ok(text) ==> crate::router::table(text) is Err,
    ensures
        ({
            let caller = CallerView::Dialog;
            let read = s.at(TaskView::TableRead { table, caller }).resumed(ReplyView::Content(r));
            let written = s.at(TaskView::TableWrite { table, content, entries, caller }).resumed(
                ReplyView::Done(Err(e)),
            );
            &&& read == (AppView { status: read.status, ..s })
            &&& read.status matches Some(m)
            &&& m.kind == MsgKind::Failure
            &&& written == (AppView { status: written.status, ..s })
            &&& written.status matches Some(n)
            &&& n.kind == MsgKind::Failure
        }),
{
    reveal(AppView::resumed_content);
    reveal(AppView::resumed_done);
}

/// Once an entry was switched to, its file is looked at, the engine gets its
/// configuration, the session is saved and the switch is told.
pub proof fn a_switch_is_completed(
    s: AppView,
    index: usize,
    t: Option<Mtime>,
    r: Result<(), Seq<char>>,
)
    requires
        s.task == (TaskView::SwitchStat { index }),
        s.config_source is Some,
    ensures
        ({
            let stamped = s.resumed(ReplyView::Stamp(t));
            let after = stamped.resumed(ReplyView::Done(r));
            &&& s.wanted() == Some(RequestView::Stat { path: s.config_source->0 })
            &&& stamped.wanted() matches Some(RequestView::SaveSession { state })
            &&& state.last_config == s.config_source
            &&& state.last_router == s.router_path
            &&& state.router_index == s.router_index
            &&& after == (AppView {
                shared: s.cfg,
                config_mtime: t,
                status: after.status,
                task: TaskView::Idle,
                ..s
            })
            &&& after.status matches Some(m)
            &&& m.kind == MsgKind::Success
        }),
{
    reveal(AppView::resumed_stamped);
    reveal(AppView::resumed_done);
}

/// An entry that is tried: where its file keeps the rules it is in use from then
/// on, the active entry and marked as usable, and its file is the active file.
/// Where it does not, only the mark of that entry changes, and the entry behind
/// it is tried, the first one behind the last, until all were.
pub proof fn an_entry_is_tried(
    s: AppView,
    index: usize,
    tried: usize,
    r: Result<ConfigView, Seq<char>>,
)
    requires
        s.task == (TaskView::SwitchLoad { index, tried }),
        index < s.router_files.len() <= usize::MAX,
        tried <= s.router_files.len(),
    ensures
        ({
            let n = s.router_files.len();
            let path = s.router_files[index as int].path;
            let after = s.resumed(ReplyView::Loaded(r));
            let next = if index + 1 == n {
                0
            } else {
                index + 1
            };
            &&& s.wanted() == Some(RequestView::LoadConfig { path })
            &&& after.router_files.len() == n
            &&& after.router_files[index as int].path == path
            &&& forall|j: int|
                0 <= j < n && j != index ==> #[trigger] after.router_files[j] == s.router_files[j]
            &&& if r is Ok && config::keeps_the_rules(r->Ok_0) {
                &&& after.router_files[index as int].valid
                &&& after.router_files[index as int].error.len() == 0
                &&& after.wanted() == Some(RequestView::Stat { path })
                &&& after == (AppView {
                    cfg: r->Ok_0,
                    config_source: Some(path),
                    watched: Some(path),
                    router_index: index,
                    router_files: after.router_files,
                    task: after.task,
                    ..s
                })
            } else {
                &&& !after.router_files[index as int].valid
                &&& r is Err ==> after.router_files[index as int].error == r->Err_0
                &&& after == (AppView {
                    router_files: after.router_files,
                    status: after.status,
                    task: after.task,
                    ..s
                })
                &&& tried < n ==> after.status == s.status && after.wanted() == Some(
                    RequestView::LoadConfig { path: s.router_files[next].path },
                )
                &&& tried == n ==> after.task is Idle && (after.status matches Some(m) && m.kind
                    == MsgKind::Failure)
            }
        }),
{
    reveal(AppView::resumed_loaded);
    reveal_strlit("");
    match r {
        Ok(c) => config::the_rules_decide(s.l(), c, Seq::<char>::empty()),
        Err(e) => {},
    }
    let n = s.router_files.len();
    if index + 1 == n {
        vstd::arithmetic::div_mod::lemma_mod_self_0(n as int);
    } else {
        vstd::arithmetic::div_mod::lemma_small_mod((index + 1) as nat, n);
    }
}

/// A reply that nothing was asked for changes nothing.
pub proof fn idle_programs_ignore_replies(s: AppView, reply: ReplyView)
    requires
        s.task is Idle,
    ensures
        s.resumed(reply) == s,
{
    reveal(AppView::resumed_picked);
    reveal(AppView::resumed_found);
    reveal(AppView::resumed_loaded);
    reveal(AppView::resumed_stamped);
    reveal(AppView::resumed_done);
    reveal(AppView::resumed_content);
    reveal(AppView::resumed_checked);
}

// ---------------------------------------------------------------------------
// Restoring a session
// ---------------------------------------------------------------------------

/// A restore looks for the router table of the session first, then for its
/// configuration, and without either for the default file. The language of the
/// session is taken over unless one is imposed; nothing else changes by that.
pub proof fn a_restore_begins_with_the_table(
    s: AppView,
    st: Option<SessionView>,
    imposed: Option<Lang>,
)
    ensures
        ({
            let after = s.restoring(st, imposed);
            &&& after == (AppView { lang: after.lang, task: after.task, ..s })
            &&& imposed is Some || st is None ==> after.lang == s.lang
            &&& imposed is None && st is Some && st->0.language is Some ==> after.lang.current()
                == st->0.language->0
            &&& imposed is None && st is Some && st->0.language is None ==> after.lang == s.lang
            &&& st is None ==> after.wanted() == Some(
                RequestView::Exists { path: "zwtcfg.json"@ },
            )
            &&& st is Some && st->0.last_router is Some ==> after.wanted() == Some(
                RequestView::Exists { path: st->0.last_router->0 },
            )
            &&& st is Some && st->0.last_router is None && st->0.last_config is Some
                ==> after.wanted() == Some(RequestView::Exists { path: st->0.last_config->0 })
        }),
{
}

/// A router table of the session that is still there is read; where it is gone
/// or bad, the configuration of the session is looked for without it.
pub proof fn the_table_of_the_session_is_read(
    s: AppView,
    st: SessionView,
    table: Seq<char>,
    path: Seq<char>,
    found: bool,
    e: Seq<char>,
)
    requires
        s.task == (TaskView::FindTable { table, state: st }),
        st.last_config == Some(path),
    ensures
        ({
            let after = s.resumed(ReplyView::Found(found));
            let bad = after.resumed(ReplyView::Content(Err(e)));
            &&& after == (AppView { task: after.task, ..s })
            &&& found ==> after.wanted() == Some(RequestView::ReadText { path: table })
            &&& !found ==> after.wanted() == Some(RequestView::Exists { path })
            &&& found ==> bad.wanted() == Some(RequestView::Exists { path }) && bad.router_files
                == s.router_files && bad.router_path == s.router_path && bad.cfg == s.cfg
        }),
{
    reveal(AppView::resumed_found);
    reveal(AppView::resumed_content);
}

/// The configuration of the session is read where its file is still there. Where
/// it is gone or bad, the first usable entry of the router table is read
/// instead, and without one the default file is looked for.
pub proof fn another_configuration_is_found(
    s: AppView,
    st: SessionView,
    path: Seq<char>,
    r: Result<ConfigView, Seq<char>>,
    i: int,
)
    requires
        s.task == (TaskView::FindConfig { path, state: st }),
        r matches Ok(c) ==> !config::keeps_the_rules(c),
        s.router_files.len() <= usize::MAX,
    ensures
        ({
            let found = s.resumed(ReplyView::Found(true));
            let gone = s.resumed(ReplyView::Found(false));
            let bad = found.resumed(ReplyView::Loaded(r));
            &&& found.wanted() == Some(RequestView::LoadConfig { path })
            &&& is_first_usable(s.router_files, i) ==> gone.wanted() == Some(
                RequestView::LoadConfig { path: s.router_files[i].path },
            ) && bad.wanted() == gone.wanted()
            &&& (forall|j: int|
                0 <= j < s.router_files.len() ==> !(#[trigger] s.router_files[j]).valid)
                ==> gone.wanted() == Some(RequestView::Exists { path: "zwtcfg.json"@ })
                && bad.wanted() == gone.wanted() && gone.task == (TaskView::DefaultFind {
                session: Some(st),
            }) && bad.task == gone.task
            &&& gone == (AppView { task: gone.task, ..s })
            &&& bad == (AppView { task: bad.task, ..s })
        }),
{
    match r {
        Ok(c) => config::the_rules_decide(s.l(), c, Seq::<char>::empty()),
        Err(e) => {},
    }
    if is_first_usable(s.router_files, i) {
        lemma_first_usable(s.router_files, i, 0);
    }
    if forall|j: int| 0 <= j < s.router_files.len() ==> !(#[trigger] s.router_files[j]).valid {
        lemma_none_usable(s.router_files, 0);
    }
    let found = s.resumed(ReplyView::Found(true));
    assert(found == s.config_found(path, st, true)) by {
        reveal(AppView::resumed_found);
    }
    assert(s.resumed(ReplyView::Found(false)) == s.config_found(path, st, false)) by {
        reveal(AppView::resumed_found);
    }
    let goal = GoalView::LastConfig { state: st };
    assert(found.resumed(ReplyView::Loaded(r)) == found.apply_loaded(path, goal, r)) by {
        reveal(AppView::resumed_loaded);
    }
}

/// The first usable entry of the router table that is used instead of the last
/// configuration becomes the active entry, its file the active file.
#[verifier::rlimit(30)]
pub proof fn an_entry_takes_its_place(
    s: AppView,
    st: SessionView,
    i: usize,
    c: ConfigView,
    t: Option<Mtime>,
)
    requires
        i < s.router_files.len(),
        config::keeps_the_rules(c),
    ensures
        ({
            let path = s.router_files[i as int].path;
            let asked = s.at(
                TaskView::ApplyLoad {
                    path,
                    goal: GoalView::InsteadOfLast { state: st, index: i },
                },
            );
            let stamped = asked.resumed(ReplyView::Loaded(Ok(c))).resumed(ReplyView::Stamp(t));
            let after = stamped.resumed(ReplyView::Done(Ok(())));
            &&& after.cfg == c
            &&& after.shared == c
            &&& after.config_source == Some(path)
            &&& after.watched == Some(path)
            &&& after.config_mtime == t
            &&& after.router_files == s.router_files
            &&& after.router_path == s.router_path
            &&& after.wanted() is Some && after.wanted()->0 is SaveSession
            &&& s.router_files[i as int].valid && s.router_files.len() <= usize::MAX
                ==> is_active_entry(after, after.router_index as int) && after.router_index <= i
        }),
{
    config::the_rules_decide(s.l(), c, Seq::<char>::empty());
    let path = s.router_files[i as int].path;
    if s.router_files[i as int].valid && s.router_files.len() <= usize::MAX {
        lemma_entry_up_to(s.router_files, path, i as int, 0);
    }
    lemma_applied(s, path, GoalView::InsteadOfLast { state: st, index: i }, c, t, Ok(()));
}

/// The entry has the path of the active file, upper and lower case aside, and
/// can be used.
pub open spec fn is_active_entry(s: AppView, i: int) -> bool {
    &&& 0 <= i < s.router_files.len()
    &&& s.config_source is Some
    &&& s.router_files[i].valid
    &&& text::lower(s.router_files[i].path) == text::lower(s.config_source->0)
}

proof fn lemma_active_entry(s: AppView, i: int, k: nat)
    requires
        is_active_entry(s, i),
        forall|j: int| 0 <= j < i ==> !#[trigger] is_active_entry(s, j),
        k <= i,
        s.router_files.len() <= usize::MAX,
    ensures
        flow::entry_for(s.router_files, s.config_source->0, k) == Some(i as usize),
    decreases i - k,
{
    if k < i {
        assert(!is_active_entry(s, k as int));
        lemma_active_entry(s, i, k + 1);
    }
}

proof fn lemma_no_active_entry(s: AppView, k: nat)
    requires
        s.config_source is Some,
        forall|j: int| 0 <= j < s.router_files.len() ==> !#[trigger] is_active_entry(s, j),
        k <= s.router_files.len(),
    ensures
        flow::entry_for(s.router_files, s.config_source->0, k) is None,
    decreases s.router_files.len() - k,
{
    if k < s.router_files.len() {
        assert(!is_active_entry(s, k as int));
        lemma_no_active_entry(s, k + 1);
    }
}

proof fn lemma_entry_up_to(files: Seq<EntryView>, path: Seq<char>, i: int, k: nat)
    requires
        k <= i < files.len() <= usize::MAX,
        files[i].valid,
        files[i].path == path,
    ensures
        flow::entry_for(files, path, k) matches Some(j) && k <= j <= i && files[j as int].valid
            && text::lower(files[j as int].path) == text::lower(path),
    decreases i - k,
{
    if !(files[k as int].valid && text::lower(files[k as int].path) == text::lower(path)) {
        lemma_entry_up_to(files, path, i, k + 1);
    }
}

/// The position in the router table after a restore: the first usable entry with
/// the active file; without one the recorded position, where that entry can be
/// used; else the first usable entry, and the beginning where there is none.
/// Without a router table the position stays.
pub proof fn the_position_is_restored(s: AppView, recorded: usize, i: int)
    requires
        s.router_files.len() <= usize::MAX,
    ensures
        s.router_files.len() == 0 ==> s.position(recorded) == s.router_index,
        is_active_entry(s, i) && (forall|j: int| 0 <= j < i ==> !#[trigger] is_active_entry(s, j))
            ==> s.position(recorded) == i,
        (forall|j: int| 0 <= j < s.router_files.len() ==> !#[trigger] is_active_entry(s, j))
            && recorded < s.router_files.len() && s.router_files[recorded as int].valid
            ==> s.position(recorded) == recorded,
        (forall|j: int| 0 <= j < s.router_files.len() ==> !#[trigger] is_active_entry(s, j)) && (
        recorded >= s.router_files.len() || !s.router_files[recorded as int].valid)
            && is_first_usable(s.router_files, i) ==> s.position(recorded) == i,
        s.router_files.len() > 0 && (forall|j: int|
            0 <= j < s.router_files.len() ==> !(#[trigger] s.router_files[j]).valid)
            ==> s.position(recorded) == 0,
{
    if is_active_entry(s, i) && forall|j: int|
        0 <= j < i ==> !#[trigger] is_active_entry(s, j) {
        lemma_active_entry(s, i, 0);
    }
    if forall|j: int| 0 <= j < s.router_files.len() ==> !#[trigger] is_active_entry(s, j) {
        if s.config_source is Some {
            lemma_no_active_entry(s, 0);
        }
        if is_first_usable(s.router_files, i) {
            lemma_first_usable(s.router_files, i, 0);
        }
    }
    if forall|j: int| 0 <= j < s.router_files.len() ==> !(#[trigger] s.router_files[j]).valid {
        assert forall|j: int| 0 <= j < s.router_files.len() implies !#[trigger] is_active_entry(
            s,
            j,
        ) by {
            assert(!s.router_files[j].valid);
        }
        if s.config_source is Some {
            lemma_no_active_entry(s, 0);
        }
        lemma_none_usable(s.router_files, 0);
    }
}

/// Once the configuration of the session is applied, the position in the router
/// table is set and the session saved.
pub proof fn the_restored_session_is_saved(
    s: AppView,
    st: SessionView,
    path: Seq<char>,
)
    requires
        s.task == (TaskView::ApplySession { path, goal: GoalView::LastConfig { state: st } }),
    ensures
        ({
            let after = s.resumed(ReplyView::Done(Ok(())));
            &&& after == (AppView {
                router_index: s.position(st.router_index),
                task: TaskView::RestoreSession,
                ..s
            })
            &&& after.wanted() is Some && after.wanted()->0 is SaveSession
        }),
{
    reveal(AppView::resumed_done);
}

/// The default file is `zwtcfg.json`. Where it is there it is read, and where it
/// keeps the rules it is in use and the active file. Where it is bad, the
/// configuration that the program has stays, and that is told.
pub proof fn the_default_file_is_used(
    s: AppView,
    session: Option<SessionView>,
    c: ConfigView,
    r: Result<ConfigView, Seq<char>>,
)
    requires
        s.task == (TaskView::DefaultFind { session }),
        config::keeps_the_rules(c),
        r matches Ok(b) ==> !config::keeps_the_rules(b),
    ensures
        ({
            let found = s.resumed(ReplyView::Found(true));
            let read = found.resumed(ReplyView::Loaded(Ok(c)));
            let bad = found.resumed(ReplyView::Loaded(r));
            &&& s.wanted() == Some(RequestView::Exists { path: "zwtcfg.json"@ })
            &&& found.wanted() == Some(RequestView::LoadConfig { path: "zwtcfg.json"@ })
            &&& read == (AppView {
                cfg: c,
                config_source: Some("zwtcfg.json"@),
                watched: Some("zwtcfg.json"@),
                status: read.status,
                router_index: read.router_index,
                task: read.task,
                ..s
            })
            &&& session is None ==> read.router_index == s.router_index && read.wanted() == Some(
                RequestView::Stat { path: "zwtcfg.json"@ },
            )
            &&& session is Some ==> read.wanted() is Some && read.wanted()->0 is SaveSession
                && read.router_index == (AppView { router_index: s.router_index, ..read }).position(
                session->0.router_index,
            )
            &&& bad.cfg == s.cfg
            &&& bad.config_source == s.config_source
            &&& bad.status matches Some(m)
            &&& m.kind == MsgKind::Failure
        }),
{
    config::the_rules_decide(s.l(), c, Seq::<char>::empty());
    match r {
        Ok(b) => config::the_rules_decide(s.l(), b, Seq::<char>::empty()),
        Err(e) => {},
    }
    let found = s.resumed(ReplyView::Found(true));
    assert(found == s.default_found(session, true)) by {
        reveal(AppView::resumed_found);
    }
    assert(found.resumed(ReplyView::Loaded(Ok(c))) == found.default_loaded(session, Ok(c))) by {
        reveal(AppView::resumed_loaded);
    }
    assert(found.resumed(ReplyView::Loaded(r)) == found.default_loaded(session, r)) by {
        reveal(AppView::resumed_loaded);
    }
}

/// Where there is no default file, the configuration that the program has is
/// written there, and the file is the active one; where that fails, it is told
/// and the active file is the same as before.
pub proof fn the_default_file_is_written(
    s: AppView,
    session: Option<SessionView>,
    e: Seq<char>,
)
    requires
        s.task == (TaskView::DefaultFind { session }),
    ensures
        ({
            let missing = s.resumed(ReplyView::Found(false));
            let written = missing.resumed(ReplyView::Done(Ok(())));
            let failed = missing.resumed(ReplyView::Done(Err(e)));
            &&& missing.wanted() == Some(
                RequestView::SaveConfig { path: "zwtcfg.json"@, cfg: s.cfg },
            )
            &&& written.cfg == s.cfg
            &&& written.config_source == Some("zwtcfg.json"@)
            &&& written.watched == Some("zwtcfg.json"@)
            &&& written.router_files == s.router_files
            &&& session is None ==> written.wanted() == Some(
                RequestView::Stat { path: "zwtcfg.json"@ },
            )
            &&& session is Some ==> written.wanted() is Some && written.wanted()->0 is SaveSession
                && written.router_index == (AppView {
                router_index: s.router_index,
                ..written
            }).position(session->0.router_index)
            &&& failed.cfg == s.cfg
            &&& failed.config_source == s.config_source
            &&& failed.status matches Some(m)
            &&& m.kind == MsgKind::Failure
        }),
{
    let missing = s.resumed(ReplyView::Found(false));
    assert(missing == s.default_found(session, false)) by {
        reveal(AppView::resumed_found);
    }
    assert(missing.resumed(ReplyView::Done(Ok(()))) == missing.default_saved(session, Ok(())))
        by {
        reveal(AppView::resumed_done);
    }
    assert(missing.resumed(ReplyView::Done(Err(e))) == missing.default_saved(session, Err(e)))
        by {
        reveal(AppView::resumed_done);
    }
}

/// What a restore looks for once the router table is dealt with: the file of the
/// last configuration; without one the first usable entry of the router table
/// is read, and without that the default file is looked for.
pub proof fn a_configuration_is_looked_for(s: AppView, st: SessionView, i: int)
    requires
        s.router_files.len() <= usize::MAX,
    ensures
        ({
            let after = s.restoring_config(st);
            &&& after == (AppView { task: after.task, ..s })
            &&& st.last_config is Some ==> after.wanted() == Some(
                RequestView::Exists { path: st.last_config->0 },
            )
            &&& st.last_config is None && is_first_usable(s.router_files, i) ==> after.wanted()
                == Some(RequestView::LoadConfig { path: s.router_files[i].path })
            &&& st.last_config is None && (forall|j: int|
                0 <= j < s.router_files.len() ==> !(#[trigger] s.router_files[j]).valid)
                ==> after.wanted() == Some(RequestView::Exists { path: "zwtcfg.json"@ })
                && after.task == (TaskView::DefaultFind { session: Some(st) })
        }),
{
    if is_first_usable(s.router_files, i) {
        lemma_first_usable(s.router_files, i, 0);
    }
    if forall|j: int| 0 <= j < s.router_files.len() ==> !(#[trigger] s.router_files[j]).valid {
        lemma_none_usable(s.router_files, 0);
    }
}

/// A bad router table does not stop a restore: that is told, and the
/// configuration is looked for as without a table.
pub proof fn a_restore_survives_a_bad_table(
    s: AppView,
    table: Seq<char>,
    st: SessionView,
    r: Result<Seq<char>, Seq<char>>,
    content: Seq<char>,
    entries: Seq<EntryView>,
    e: Seq<char>,
)
    requires
        r matches Ok(text) ==> crate::router::table(text) is Err,
    ensures
        ({
            let caller = CallerView::Restore { state: st };
            let read = s.at(TaskView::TableRead { table, caller }).resumed(ReplyView::Content(r));
            let written = s.at(TaskView::TableWrite { table, content, entries, caller }).resumed(
                ReplyView::Done(Err(e)),
            );
            let without = s.restoring_config(st);
            &&& read.wanted() == without.wanted()
            &&& read == (AppView { status: read.status, ..without })
            &&& read.status matches Some(m)
            &&& m.kind == MsgKind::Failure
            &&& written.wanted() == without.wanted()
            &&& written == (AppView { status: written.status, ..without })
        }),
{
    reveal(AppView::resumed_content);
    reveal(AppView::resumed_done);
}

/// Where the first usable entry of a table that was checked cannot be read after
/// all, the table is in use all the same, and that is told; where this was to
/// take the place of the last configuration, the default file is looked for.
pub proof fn an_entry_may_turn_bad(
    s: AppView,
    path: Seq<char>,
    table: Seq<char>,
    caller: CallerView,
    st: SessionView,
    index: usize,
    r: Result<ConfigView, Seq<char>>,
)
    requires
        r matches Ok(c) ==> !config::keeps_the_rules(c),
    ensures
        ({
            let first = s.at(
                TaskView::ApplyLoad { path, goal: GoalView::FirstOfTable { table, caller } },
            ).resumed(ReplyView::Loaded(r));
            let instead = s.at(
                TaskView::ApplyLoad { path, goal: GoalView::InsteadOfLast { state: st, index } },
            ).resumed(ReplyView::Loaded(r));
            &&& first == (AppView { status: first.status, task: first.task, ..s })
            &&& first.wanted() is Some && first.wanted()->0 is SaveSession
            &&& first.status matches Some(m)
            &&& m.kind == MsgKind::Failure
            &&& instead == (AppView { task: instead.task, ..s })
            &&& instead.task == (TaskView::DefaultFind { session: Some(st) })
            &&& instead.wanted() == Some(RequestView::Exists { path: "zwtcfg.json"@ })
        }),
{
    match r {
        Ok(c) => config::the_rules_decide(s.l(), c, Seq::<char>::empty()),
        Err(e) => {},
    }
    reveal(AppView::resumed_loaded);
}

/// A session that could not be saved is told, and that is all.
pub proof fn an_unsaved_session_is_told(s: AppView, r: Result<(), Seq<char>>)
    ensures
        s.session_saved(r) == (AppView { status: s.session_saved(r).status, ..s }),
        r is Ok ==> s.session_saved(r) == s,
        r is Err ==> (s.session_saved(r).status matches Some(m) && m.kind == MsgKind::Failure),
{
}

/// Before the start ends, the keys are explained where there is nothing else to
/// tell; then the active file is looked at, where there is one.
pub proof fn the_start_explains_the_keys(s: AppView)
    requires
        s.task is RestoreSession,
    ensures
        ({
            let after = s.resumed(ReplyView::Done(Ok(())));
            &&& s.status is Some ==> after.status == s.status
            &&& s.status is None ==> (after.status matches Some(m) && m.kind == MsgKind::Info)
            &&& s.config_source is Some ==> after.wanted() == Some(
                RequestView::Stat { path: s.config_source->0 },
            ) && after == (AppView { status: after.status, task: after.task, ..s })
            &&& s.config_source is None ==> after == (AppView {
                config_mtime: None,
                watched: None,
                shared: s.cfg,
                status: after.status,
                task: TaskView::Idle,
                ..s
            })
        }),
{
    reveal(AppView::resumed_done);
}

/// At the end of the start the time of the active file is taken, the watcher
/// looks at that file, and the engine has the configuration.
pub proof fn the_start_ends_in_step(s: AppView, t: Option<Mtime>)
    requires
        s.task is StartStat,
        s.config_source is Some,
    ensures
        s.wanted() == Some(RequestView::Stat { path: s.config_source->0 }),
        s.resumed(ReplyView::Stamp(t)) == (AppView {
            config_mtime: t,
            watched: s.config_source,
            shared: s.cfg,
            task: TaskView::Idle,
            ..s
        }),
{
    reveal(AppView::resumed_stamped);
}

// ---------------------------------------------------------------------------
// Messages
// ---------------------------------------------------------------------------

/// An entry whose file does not exist is told so; one that cannot be used is told
/// why, by the reason of its file.
pub proof fn entries_are_told_their_fault(
    l: Lang,
    c: ConfigView,
    loaded: Result<ConfigView, Seq<char>>,
)
    requires
        config::keeps_the_rules(c),
    ensures
        flow::entry_fault(Lang::En, false, loaded) == "File does not exist"@,
        flow::entry_fault(Lang::Zh, false, loaded) == "文件不存在"@,
        flow::entry_fault(l, true, Ok(c)).len() == 0,
        loaded matches Err(e) ==> flow::entry_fault(l, true, loaded) == e,
        loaded matches Ok(b) ==> !config::keeps_the_rules(b) ==> flow::entry_fault(
            l,
            true,
            loaded,
        ).len() > 0,
{
    config::the_rules_decide(l, c, Seq::<char>::empty());
    if let Ok(b) = loaded {
        config::the_rules_decide(l, b, Seq::<char>::empty());
        if let Some(f) = config::config_fault(b) {
            config::faults_have_a_text(l, b.execution_order, f);
        }
    }
    reveal_strlit("");
}

/// The comment above an unusable entry holds its name and the reason.
pub proof fn comments_name_the_entry(name: Seq<char>, fault: Seq<char>)
    ensures
        flow::marker_text(Lang::En, name, fault) == "# [invalid] "@ + name + ": "@ + fault,
        flow::marker_text(Lang::Zh, name, fault) == "# [无效] "@ + name + ": "@ + fault,
{
}

/// How many entries cannot be used is counted.
pub proof fn unusable_entries_are_counted(files: Seq<EntryView>)
    ensures
        flow::unusable(files) == files.filter(|f: EntryView| !f.valid).len(),
    decreases files.len(),
{
    reveal(Seq::filter);
    if files.len() > 0 {
        unusable_entries_are_counted(files.drop_last());
    }
}

} // verus!
