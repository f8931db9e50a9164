//! What holds of the operations as a whole.
//!
//! Each law is about several steps of an operation, or about all the
//! operations at once; it is stated over the functions that say what the
//! single steps do.

use vstd::prelude::*;

use crate::config;
use crate::config::ConfigView;
use crate::edit;
use crate::edit::Event;
use crate::engine::EngineMsg;
use crate::fields;
use crate::flow;
use crate::flow::{ReplyView, RequestView};
use crate::lang;
use crate::lang::{Lang, LangState};
use crate::router;
use crate::router::ItemView;
use crate::session::SessionView;
use crate::state;
use crate::state::{AppView, CallerView, EntryView, GoalView, MsgKind, TaskView};
use crate::text;
use crate::watcher::Mtime;

verus! {

// ---------------------------------------------------------------------------
// What is never lost
// ---------------------------------------------------------------------------

/// A configuration that cannot be read or is not valid changes nothing: what is
/// in use, where it came from and what the engine reads stay as they are,
/// whatever it was to be applied for.
pub proof fn a_bad_configuration_is_never_used(s: AppView, r: Result<ConfigView, Seq<char>>)
    requires
        config::admitted(s.l(), r) is Err,
        s.task is ApplyLoad || s.task is DefaultLoad || s.task is SwitchLoad || s.task is HotLoad,
    ensures
        ({
            let after = s.resumed(ReplyView::Loaded(r));
            &&& after.cfg == s.cfg
            &&& after.config_source == s.config_source
            &&& s.wf() && !state::of_start(s.task) ==> after.shared == s.shared && after.watched
                == s.watched && after.config_mtime == s.config_mtime
        }),
{
    reveal(AppView::resumed_loaded);
}

/// A router table that cannot be read, parsed or written leaves the table
/// before in place, with the position in it.
pub proof fn a_bad_table_is_never_used(
    s: AppView,
    table: Seq<char>,
    caller: CallerView,
    r: Result<Seq<char>, Seq<char>>,
    content: Seq<char>,
    entries: Seq<EntryView>,
    e: Seq<char>,
)
    requires
        r matches Ok(text) ==> router::table(text) is Err,
    ensures
        ({
            let read = s.at(TaskView::TableRead { table, caller }).resumed(ReplyView::Content(r));
            let written = s.at(TaskView::TableWrite { table, content, entries, caller }).resumed(
                ReplyView::Done(Err(e)),
            );
            &&& read.router_files == s.router_files
            &&& read.router_path == s.router_path
            &&& read.router_index == s.router_index
            &&& written.router_files == s.router_files
            &&& written.router_path == s.router_path
            &&& written.router_index == s.router_index
        }),
{
    reveal(AppView::resumed_content);
    reveal(AppView::resumed_done);
}

/// A file that was not changed is not read again; a valid change is used from
/// then on, by the engine too; and one that could not be used is tried again at
/// the next notice.
pub proof fn hot_reads_follow_the_file(s: AppView, t: Mtime, r: Result<ConfigView, Seq<char>>)
    requires
        s.config_source is Some,
    ensures
        s.config_mtime == Some(t) ==> s.at(TaskView::HotStat).resumed(ReplyView::Stamp(Some(t)))
            == s.idle(),
        s.config_mtime != Some(t) ==> s.at(TaskView::HotStat).resumed(
            ReplyView::Stamp(Some(t)),
        ).wanted() == Some(RequestView::LoadConfig { path: s.config_source->0 }),
        config::admitted(s.l(), r) is Err ==> s.at(TaskView::HotLoad { mtime: t }).resumed(
            ReplyView::Loaded(r),
        ).config_mtime == s.config_mtime,
        config::admitted(s.l(), r) matches Ok(c) ==> ({
            let after = s.at(TaskView::HotLoad { mtime: t }).resumed(ReplyView::Loaded(r));
            &&& after.cfg == c
            &&& after.shared == c
            &&& after.config_source == s.config_source
            &&& after.config_mtime == Some(t)
        }),
{
    reveal(AppView::resumed_stamped);
    reveal(AppView::resumed_loaded);
}

/// A configuration file is written only where the user exports the
/// configuration or confirms an edit, and where there is no default file yet:
/// loading, switching and reading again never write one.
pub proof fn only_edits_are_written(s: AppView)
    ensures
        s.wanted() matches Some(RequestView::SaveConfig { path, cfg }) ==> cfg == s.cfg && (
        s.task is Export || s.task is AutoSave || s.task is DefaultSave),
{
}

// ---------------------------------------------------------------------------
// What is done
// ---------------------------------------------------------------------------

/// A confirmed edit is saved to the active file, and then read by the engine;
/// a failure to save it is told and does not undo it.
pub proof fn an_edit_reaches_the_file_and_the_engine(
    s: AppView,
    r: Result<(), Seq<char>>,
    t: Option<Mtime>,
)
    requires
        s.task is AutoSave,
        s.config_source is Some,
    ensures
        s.wanted() == Some(RequestView::SaveConfig { path: s.config_source->0, cfg: s.cfg }),
        ({
            let after = s.resumed(ReplyView::Done(r)).resumed(ReplyView::Stamp(t));
            &&& after.task is Idle
            &&& after.cfg == s.cfg
            &&& after.shared == s.cfg
            &&& after.config_mtime == t
            &&& r is Err ==> (after.status matches Some(m) && m.kind == MsgKind::Failure)
            &&& r is Ok ==> after.status == s.status
        }),
{
    reveal(AppView::resumed_done);
    reveal(AppView::resumed_stamped);
}

/// A key or a button that no other field has is bound: the configuration with it
/// is written to the active file, or to the default one where there is none, and
/// then read by the engine.
pub proof fn a_new_binding_is_saved_and_shared(
    s: AppView,
    field: usize,
    name: Seq<char>,
    r: Result<(), Seq<char>>,
    t: Option<Mtime>,
)
    requires
        field <= fields::F_ROUTER,
        !edit::is_taken(s.cfg, field, name),
    ensures
        ({
            let bound = s.bound(field, name);
            let cfg = fields::with_binding(s.cfg, field, name);
            let after = bound.resumed(ReplyView::Done(r)).resumed(ReplyView::Stamp(t));
            &&& bound.wanted() == Some(RequestView::SaveConfig { path: s.save_path(), cfg })
            &&& after.task is Idle
            &&& after.cfg == cfg
            &&& after.shared == cfg
        }),
{
    edit::a_binding_is_refused_or_set(s, field, name);
    reveal(AppView::resumed_done);
    reveal(AppView::resumed_stamped);
}

/// A valid configuration that the user chooses is used from then on: by the
/// program, by the engine, and by the watcher; and the session remembers it.
#[verifier::rlimit(30)]
pub proof fn a_chosen_configuration_is_used(
    s: AppView,
    path: Seq<char>,
    c: ConfigView,
    t: Option<Mtime>,
    r: Result<(), Seq<char>>,
)
    requires
        config::valid_config(c),
    ensures
        ({
            let chosen = s.at(TaskView::Pick { kind: state::DialogKind::Load }).resumed(
                ReplyView::Picked(Some(path)),
            );
            let loaded = chosen.resumed(ReplyView::Loaded(Ok(c)));
            let stamped = loaded.resumed(ReplyView::Stamp(t));
            let after = stamped.resumed(ReplyView::Done(r));
            &&& chosen.wanted() == Some(RequestView::LoadConfig { path })
            &&& stamped.wanted() == Some(RequestView::SaveSession { state: after.session() })
            &&& after.session().last_config == Some(path)
            &&& after.task is Idle
            &&& after.cfg == c
            &&& after.shared == c
            &&& after.config_source == Some(path)
            &&& after.watched == Some(path)
            &&& after.config_mtime == t
        }),
{
    config::order_faults_are_exact(c.execution_order);
    let kind = state::DialogKind::Load;
    let goal = GoalView::LoadDialog;
    let chosen = s.at(TaskView::Pick { kind }).resumed(ReplyView::Picked(Some(path)));
    assert(chosen == s.at(TaskView::ApplyLoad { path, goal })) by {
        reveal(AppView::resumed_picked);
    }
    let used = AppView { cfg: c, config_source: Some(path), watched: Some(path), ..s };
    let loaded = chosen.resumed(ReplyView::Loaded(Ok(c)));
    assert(loaded == used.at(TaskView::ApplyStat { path, goal })) by {
        lemma_loaded_config(s, path, goal, c);
    }
    let synced = AppView { config_mtime: t, shared: c, ..used };
    let stamped = loaded.resumed(ReplyView::Stamp(t));
    assert(stamped == synced.at(TaskView::ApplySession { path, goal })) by {
        lemma_stamped_config(used, path, goal, t);
    }
    let after = stamped.resumed(ReplyView::Done(r));
    assert(after == stamped.session_saved(r).applied(path, goal)) by {
        reveal(AppView::resumed_done);
    }
}

// ---------------------------------------------------------------------------
// Switching to the next configuration
// ---------------------------------------------------------------------------

/// The state after at most `fuel` entries were read, where `loads` says what
/// each of them gives.
pub open spec fn switch_run(
    s: AppView,
    loads: spec_fn(int) -> Result<ConfigView, Seq<char>>,
    fuel: nat,
) -> AppView
    decreases fuel,
{
    if fuel == 0 {
        s
    } else {
        match s.task {
            TaskView::SwitchLoad { index, tried } => switch_run(
                s.resumed(ReplyView::Loaded(loads(index as int))),
                loads,
                (fuel - 1) as nat,
            ),
            _ => s,
        }
    }
}

/// The entry at the distance `d` from the active one, behind the last of which
/// comes the first.
pub open spec fn ahead(s: AppView, d: int) -> int {
    (s.router_index + d) % (s.router_files.len() as int)
}

/// The distance to the next entry that gives a valid configuration, counted
/// from `d`; none where there is no such entry up to the active one itself.
pub open spec fn next_usable(
    s: AppView,
    loads: spec_fn(int) -> Result<ConfigView, Seq<char>>,
    d: int,
) -> Option<int>
    decreases s.router_files.len() + 1 - d,
{
    if d > s.router_files.len() {
        None
    } else if config::admitted(s.l(), loads(ahead(s, d))) is Ok {
        Some(d)
    } else {
        next_usable(s, loads, d + 1)
    }
}

/// What is recorded of an entry that was passed over.
pub open spec fn passed_over(
    s: AppView,
    loads: spec_fn(int) -> Result<ConfigView, Seq<char>>,
    i: int,
) -> EntryView {
    EntryView {
        path: s.router_files[i].path,
        valid: false,
        error: config::admitted(s.l(), loads(i))->Err_0,
    }
}

/// The entries after those at the distances below `d` were passed over.
pub open spec fn tried_files(
    s: AppView,
    loads: spec_fn(int) -> Result<ConfigView, Seq<char>>,
    d: int,
) -> Seq<EntryView>
    decreases d,
{
    if d <= 1 {
        s.router_files
    } else {
        let i = ahead(s, d - 1);
        tried_files(s, loads, d - 1).update(i, passed_over(s, loads, i))
    }
}

proof fn lemma_tried_files(
    s: AppView,
    loads: spec_fn(int) -> Result<ConfigView, Seq<char>>,
    d: int,
)
    requires
        s.router_files.len() > 0,
        d >= 1,
    ensures
        tried_files(s, loads, d).len() == s.router_files.len(),
        forall|i: int|
            0 <= i < s.router_files.len() ==> (#[trigger] tried_files(s, loads, d)[i]).path
                == s.router_files[i].path,
        forall|k: int|
            1 <= k < d ==> tried_files(s, loads, d)[#[trigger] ahead(s, k)] == passed_over(
                s,
                loads,
                ahead(s, k),
            ),
    decreases d,
{
    if d > 1 {
        let i = ahead(s, d - 1);
        lemma_next_index(s.router_index as int, d - 1, s.router_files.len() as int);
        lemma_tried_files(s, loads, d - 1);
        let before = tried_files(s, loads, d - 1);
        let now = tried_files(s, loads, d);
        assert forall|j: int| 0 <= j < s.router_files.len() implies (#[trigger] now[j]).path
            == s.router_files[j].path by {
            assert(before[j].path == s.router_files[j].path);
        }
        assert forall|k: int| 1 <= k < d implies now[#[trigger] ahead(s, k)] == passed_over(
            s,
            loads,
            ahead(s, k),
        ) by {
            lemma_next_index(s.router_index as int, k, s.router_files.len() as int);
        }
    }
}

proof fn lemma_next_index(i: int, d: int, n: int)
    requires
        n > 0,
        d >= 0,
        i >= 0,
    ensures
        0 <= (i + d) % n < n,
        ((i + d) % n + 1) % n == (i + d + 1) % n,
{
    vstd::arithmetic::div_mod::lemma_mod_bound(i + d, n);
    vstd::arithmetic::div_mod::lemma_add_mod_noop(i + d, 1, n);
    if n == 1 {
        assert((i + d + 1) % n == 0);
    } else {
        vstd::arithmetic::div_mod::lemma_small_mod(1, n as nat);
    }
}

proof fn lemma_loaded_entry(
    s: AppView,
    index: usize,
    tried: usize,
    r: Result<ConfigView, Seq<char>>,
)
    requires
        s.task == (TaskView::SwitchLoad { index, tried }),
    ensures
        s.resumed(ReplyView::Loaded(r)) == s.switch_loaded(index, tried, r),
{
    reveal(AppView::resumed_loaded);
}

#[verifier::rlimit(30)]
proof fn lemma_switch_run(
    first: AppView,
    s: AppView,
    loads: spec_fn(int) -> Result<ConfigView, Seq<char>>,
    d: int,
)
    requires
        0 < first.router_files.len() <= usize::MAX,
        first.router_index < usize::MAX,
        1 <= d <= first.router_files.len(),
        s.l() == first.l(),
        s.router_files == tried_files(first, loads, d),
        s.router_index == first.router_index,
        s.cfg == first.cfg,
        s.shared == first.shared,
        s.config_source == first.config_source,
        s.config_mtime == first.config_mtime,
        s.watched == first.watched,
        s.task == (TaskView::SwitchLoad { index: ahead(first, d) as usize, tried: d as usize }),
    ensures
        ({
            let after = switch_run(s, loads, (first.router_files.len() + 1 - d) as nat);
            match next_usable(first, loads, d) {
                Some(k) => {
                    let i = ahead(first, k);
                    let path = first.router_files[i].path;
                    &&& after.task == (TaskView::SwitchStat { index: i as usize })
                    &&& after.router_index == i
                    &&& after.router_files == tried_files(first, loads, k).update(
                        i,
                        EntryView { path, valid: true, error: ""@ },
                    )
                    &&& config::admitted(first.l(), loads(i)) == Ok::<ConfigView, Seq<char>>(
                        after.cfg,
                    )
                    &&& after.config_source == Some(path)
                    &&& after.watched == Some(path)
                },
                None => {
                    &&& after.task is Idle
                    &&& after.router_index == first.router_index
                    &&& after.router_files == tried_files(
                        first,
                        loads,
                        first.router_files.len() as int + 1,
                    )
                    &&& after.cfg == first.cfg
                    &&& after.shared == first.shared
                    &&& after.config_source == first.config_source
                    &&& after.config_mtime == first.config_mtime
                    &&& after.watched == first.watched
                    &&& after.status matches Some(m)
                    &&& m.kind == MsgKind::Failure
                },
            }
        }),
    decreases first.router_files.len() - d,
{
    let n = first.router_files.len() as int;
    let i = ahead(first, d);
    lemma_next_index(first.router_index as int, d, n);
    lemma_tried_files(first, loads, d);
    assert(s.router_files[i].path == first.router_files[i].path);
    let r = loads(i);
    let fuel = (n + 1 - d) as nat;
    let next = s.resumed(ReplyView::Loaded(r));
    assert(next == s.switch_loaded(i as usize, d as usize, r)) by {
        lemma_loaded_entry(s, i as usize, d as usize, r);
    }
    assert(switch_run(s, loads, fuel) == switch_run(next, loads, (fuel - 1) as nat));
    if config::admitted(first.l(), r) is Ok {
        assert(next.task is SwitchStat);
        assert(switch_run(next, loads, (fuel - 1) as nat) == next);
    } else {
        assert(next.router_files == tried_files(first, loads, d + 1));
        if d < n {
            assert(next.task == (TaskView::SwitchLoad {
                index: ahead(first, d + 1) as usize,
                tried: (d + 1) as usize,
            }));
            lemma_switch_run(first, next, loads, d + 1);
        } else {
            assert(next.task is Idle);
            assert(switch_run(next, loads, (fuel - 1) as nat) == next);
            assert(next_usable(first, loads, d + 1) is None);
        }
    }
}

/// The quick-switch hotkey goes to the next entry of the router table that
/// holds a valid configuration: the entries are tried in their order, from the
/// one behind the active one round to the active one itself, and those that
/// cannot be used are passed over. Those are recorded as unusable, with the
/// reason, and the one that is taken as usable; the list itself stays. Where
/// none can be used, the active configuration stays as well, and that is told.
pub proof fn switching_finds_the_next_usable(
    s: AppView,
    loads: spec_fn(int) -> Result<ConfigView, Seq<char>>,
)
    requires
        s.wf(),
        s.task is Idle,
        s.router_files.len() > 0,
    ensures
        ({
            let after = switch_run(
                s.on_message(EngineMsg::RouterNext),
                loads,
                s.router_files.len(),
            );
            &&& after.router_files.len() == s.router_files.len()
            &&& forall|j: int|
                0 <= j < s.router_files.len() ==> (#[trigger] after.router_files[j]).path
                    == s.router_files[j].path
            &&& match next_usable(s, loads, 1) {
                Some(d) => {
                    let i = ahead(s, d);
                    let path = s.router_files[i].path;
                    &&& after.task == (TaskView::SwitchStat { index: i as usize })
                    &&& after.router_index == i
                    &&& forall|k: int|
                        1 <= k < d ==> after.router_files[#[trigger] ahead(s, k)] == passed_over(
                            s,
                            loads,
                            ahead(s, k),
                        )
                    &&& after.router_files[i] == (EntryView { path, valid: true, error: ""@ })
                    &&& config::admitted(s.l(), loads(i)) == Ok::<ConfigView, Seq<char>>(after.cfg)
                    &&& after.config_source == Some(path)
                    &&& after.watched == Some(path)
                },
                None => {
                    &&& after.task is Idle
                    &&& after.router_index == s.router_index
                    &&& forall|k: int|
                        1 <= k <= s.router_files.len() ==> after.router_files[#[trigger] ahead(
                            s,
                            k,
                        )] == passed_over(s, loads, ahead(s, k))
                    &&& after.cfg == s.cfg
                    &&& after.shared == s.shared
                    &&& after.config_source == s.config_source
                    &&& after.config_mtime == s.config_mtime
                    &&& after.watched == s.watched
                    &&& after.status matches Some(m)
                    &&& m.kind == MsgKind::Failure
                },
            }
        }),
{
    let n = s.router_files.len() as int;
    lemma_next_index(s.router_index as int, 0, n);
    vstd::arithmetic::div_mod::lemma_mod_bound(s.router_index + 1, n);
    lemma_switch_run(s, s.on_message(EngineMsg::RouterNext), loads, 1);
    match next_usable(s, loads, 1) {
        Some(d) => {
            the_next_usable_is_the_nearest(s, loads, 1, 1);
            lemma_next_index(s.router_index as int, d, n);
            lemma_tried_files(s, loads, d);
            let i = ahead(s, d);
            let after = switch_run(s.on_message(EngineMsg::RouterNext), loads, n as nat);
            let tried = tried_files(s, loads, d);
            assert forall|j: int| 0 <= j < n implies (#[trigger] after.router_files[j]).path
                == s.router_files[j].path by {
                assert(tried[j].path == s.router_files[j].path);
            }
            assert forall|k: int| 1 <= k < d implies after.router_files[#[trigger] ahead(s, k)]
                == passed_over(s, loads, ahead(s, k)) by {
                the_next_usable_is_the_nearest(s, loads, 1, k);
                lemma_next_index(s.router_index as int, k, n);
                assert(ahead(s, k) != i);
            }
        },
        None => {
            lemma_tried_files(s, loads, n + 1);
        },
    }
}

/// What `next_usable` finds is the nearest: the entry can be used, and none
/// before it can.
pub proof fn the_next_usable_is_the_nearest(
    s: AppView,
    loads: spec_fn(int) -> Result<ConfigView, Seq<char>>,
    d: int,
    k: int,
)
    requires
        1 <= d,
    ensures
        next_usable(s, loads, d) matches Some(found) ==> d <= found <= s.router_files.len()
            && config::admitted(s.l(), loads(ahead(s, found))) is Ok && (d <= k < found
            ==> config::admitted(s.l(), loads(ahead(s, k))) is Err),
        next_usable(s, loads, d) is None && d <= k <= s.router_files.len() ==> config::admitted(
            s.l(),
            loads(ahead(s, k)),
        ) is Err,
    decreases s.router_files.len() + 1 - d,
{
    if d <= s.router_files.len() && !(config::admitted(s.l(), loads(ahead(s, d))) is Ok) {
        the_next_usable_is_the_nearest(s, loads, d + 1, k);
    }
}

// ---------------------------------------------------------------------------
// Loading a router table
// ---------------------------------------------------------------------------

/// What is found out about an entry: whether its name is an absolute path, the
/// path that it leads to from the directory of the table, whether the file
/// exists, and what it holds.
pub struct Outcome {
    pub absolute: bool,
    pub beside: Seq<char>,
    pub exists: bool,
    pub loaded: Result<ConfigView, Seq<char>>,
}

pub open spec fn reply_of(o: Outcome) -> ReplyView {
    ReplyView::Checked {
        absolute: o.absolute,
        beside: o.beside,
        exists: o.exists,
        loaded: o.loaded,
    }
}

/// The state after at most `fuel` entries were checked, where `outcomes` says
/// what is found out about each of them.
pub open spec fn check_run(
    s: AppView,
    outcomes: spec_fn(int) -> Outcome,
    fuel: nat,
) -> AppView
    decreases fuel,
{
    if fuel == 0 {
        s
    } else {
        match s.task {
            TaskView::TableCheck { table, content, items, entries, invalid, caller } => {
                let o = outcomes(entries.len() as int);
                check_run(
                    s.resumed(reply_of(o)),
                    outcomes,
                    (fuel - 1) as nat,
                )
            },
            _ => s,
        }
    }
}

/// What is wrong with an entry.
pub open spec fn fault_of(l: Lang, o: Outcome) -> Seq<char> {
    flow::entry_fault(l, o.exists, o.loaded)
}

/// The first `k` entries as they come out of the check.
pub open spec fn checked_entries(
    l: Lang,
    items: Seq<ItemView>,
    outcomes: spec_fn(int) -> Outcome,
    k: nat,
) -> Seq<EntryView> {
    Seq::new(
        k,
        |i: int|
            EntryView {
                path: router::located(outcomes(i).absolute, items[i].name, outcomes(i).beside),
                valid: fault_of(l, outcomes(i)).len() == 0,
                error: fault_of(l, outcomes(i)),
            },
    )
}

/// The markers for the first `k` entries.
pub open spec fn checked_markers(
    l: Lang,
    items: Seq<ItemView>,
    outcomes: spec_fn(int) -> Outcome,
    k: nat,
) -> Seq<(nat, Seq<char>)>
    decreases k,
{
    if k == 0 {
        seq![]
    } else {
        let i = k - 1;
        let before = checked_markers(l, items, outcomes, i as nat);
        let fault = fault_of(l, outcomes(i));
        if fault.len() == 0 {
            before
        } else {
            before.push((items[i].line, flow::marker_text(l, items[i].name, fault)))
        }
    }
}

proof fn lemma_checked_entry(
    s: AppView,
    table: Seq<char>,
    content: Seq<char>,
    items: Seq<ItemView>,
    entries: Seq<EntryView>,
    invalid: Seq<(nat, Seq<char>)>,
    caller: CallerView,
    o: Outcome,
)
    requires
        s.task == (TaskView::TableCheck { table, content, items, entries, invalid, caller }),
    ensures
        s.resumed(reply_of(o)) == s.entry_checked(
            table,
            content,
            items,
            entries,
            invalid,
            caller,
            o.absolute,
            o.beside,
            o.exists,
            o.loaded,
        ),
{
    reveal(AppView::resumed_checked);
}

#[verifier::rlimit(30)]
proof fn lemma_check_run(
    s: AppView,
    table: Seq<char>,
    content: Seq<char>,
    items: Seq<ItemView>,
    caller: CallerView,
    outcomes: spec_fn(int) -> Outcome,
    k: nat,
)
    requires
        k < items.len(),
        s.task == (TaskView::TableCheck {
            table,
            content,
            items,
            entries: checked_entries(s.l(), items, outcomes, k),
            invalid: checked_markers(s.l(), items, outcomes, k),
            caller,
        }),
    ensures
        ({
            let entries = checked_entries(s.l(), items, outcomes, items.len());
            let invalid = checked_markers(s.l(), items, outcomes, items.len());
            check_run(s, outcomes, (items.len() - k) as nat) == if invalid.len() > 0 {
                s.at(
                    TaskView::TableWrite {
                        table,
                        content: router::rewritten(content, invalid),
                        entries,
                        caller,
                    },
                )
            } else {
                s.table_accepted(table, entries, caller)
            }
        }),
    decreases items.len() - k,
{
    let l = s.l();
    let o = outcomes(k as int);
    let entries = checked_entries(l, items, outcomes, k);
    let invalid = checked_markers(l, items, outcomes, k);
    let fuel = (items.len() - k) as nat;
    let next = s.resumed(reply_of(o));
    lemma_checked_entry(s, table, content, items, entries, invalid, caller, o);
    let fault = fault_of(l, o);
    let longer = checked_entries(l, items, outcomes, k + 1);
    assert(longer =~= entries.push(
        EntryView {
            path: router::located(o.absolute, items[k as int].name, o.beside),
            valid: fault.len() == 0,
            error: fault,
        },
    ));
    let marks = checked_markers(l, items, outcomes, k + 1);
    assert(marks == if fault.len() == 0 {
        invalid
    } else {
        invalid.push((items[k as int].line, flow::marker_text(l, items[k as int].name, fault)))
    });
    assert(check_run(s, outcomes, fuel) == check_run(next, outcomes, (fuel - 1) as nat));
    if k + 1 < items.len() {
        assert(next == s.at(
            TaskView::TableCheck {
                table,
                content,
                items,
                entries: longer,
                invalid: marks,
                caller,
            },
        ));
        lemma_check_run(next, table, content, items, caller, outcomes, k + 1);
        assert(next.at(
            TaskView::TableWrite {
                table,
                content: router::rewritten(
                    content,
                    checked_markers(l, items, outcomes, items.len()),
                ),
                entries: checked_entries(l, items, outcomes, items.len()),
                caller,
            },
        ) == s.at(
            TaskView::TableWrite {
                table,
                content: router::rewritten(
                    content,
                    checked_markers(l, items, outcomes, items.len()),
                ),
                entries: checked_entries(l, items, outcomes, items.len()),
                caller,
            },
        ));
    } else {
        assert(check_run(next, outcomes, 0) == next);
    }
}

/// An entry can be used exactly where its file exists and holds a valid
/// configuration, provided that a file that cannot be read gives a reason.
proof fn lemma_usable_entry(l: Lang, o: Outcome)
    requires
        o.loaded matches Err(e) ==> e.len() > 0,
    ensures
        (fault_of(l, o).len() == 0) == (o.exists && config::admitted(l, o.loaded) is Ok),
{
    reveal_strlit("文件不存在");
    reveal_strlit("File does not exist");
    reveal_strlit("");
    if let Ok(c) = o.loaded {
        if let Some(f) = config::config_fault(c) {
            config::faults_have_a_text(l, c.execution_order, f);
        }
    }
}

/// Every entry of a router table is checked: where a file that cannot be read
/// gives a reason, an entry can be used exactly where the file at its path
/// exists and holds a valid configuration; the path is the name where that is
/// absolute, else it leads there from the directory of the table. Where all entries can be used, the table is used as it is; else it is
/// first written with a marker for each entry that cannot be used.
#[verifier::rlimit(30)]
pub proof fn all_entries_are_checked(
    s: AppView,
    table: Seq<char>,
    caller: CallerView,
    content: Seq<char>,
    outcomes: spec_fn(int) -> Outcome,
)
    requires
        router::table(content) is Ok,
    ensures
        ({
            let items = router::table(content)->Ok_0;
            let entries = checked_entries(s.l(), items, outcomes, items.len());
            let invalid = checked_markers(s.l(), items, outcomes, items.len());
            let read = s.at(TaskView::TableRead { table, caller }).resumed(
                ReplyView::Content(Ok(content)),
            );
            let after = check_run(read, outcomes, items.len());
            let accepted = s.table_accepted(table, entries, caller);
            &&& entries.len() == items.len()
            &&& forall|i: int|
                0 <= i < items.len() && (outcomes(i).loaded matches Err(e) ==> e.len() > 0)
                    ==> (#[trigger] entries[i]).valid == (outcomes(i).exists && config::admitted(
                    s.l(),
                    outcomes(i).loaded,
                ) is Ok)
            &&& if invalid.len() > 0 {
                let text = router::rewritten(content, invalid);
                &&& after.wanted() == Some(RequestView::WriteText { path: table, text })
                &&& after.resumed(ReplyView::Done(Ok(()))) == accepted
            } else {
                after == accepted
            }
        }),
{
    let items = router::table(content)->Ok_0;
    let none = Seq::<EntryView>::empty();
    let read = s.at(TaskView::TableRead { table, caller }).resumed(
        ReplyView::Content(Ok(content)),
    );
    assert(read == s.at(
        TaskView::TableCheck {
            table,
            content,
            items,
            entries: none,
            invalid: seq![],
            caller,
        },
    )) by {
        reveal(AppView::resumed_content);
    }
    assert(checked_entries(s.l(), items, outcomes, 0) =~= none);
    lemma_check_run(read, table, content, items, caller, outcomes, 0);
    let entries = checked_entries(s.l(), items, outcomes, items.len());
    let invalid = checked_markers(s.l(), items, outcomes, items.len());
    assert forall|i: int|
        0 <= i < items.len() && (outcomes(i).loaded matches Err(e) ==> e.len() > 0) implies (
    #[trigger] entries[i]).valid == (outcomes(i).exists && config::admitted(
        s.l(),
        outcomes(i).loaded,
    ) is Ok) by {
        lemma_usable_entry(s.l(), outcomes(i));
    }
    assert(read.table_accepted(table, entries, caller) == s.table_accepted(table, entries, caller));
    if invalid.len() > 0 {
        let at = read.at(
            TaskView::TableWrite {
                table,
                content: router::rewritten(content, invalid),
                entries,
                caller,
            },
        );
        assert(at.resumed(ReplyView::Done(Ok(()))) == at.table_written(
            table,
            entries,
            caller,
            Ok(()),
        )) by {
            reveal(AppView::resumed_done);
        }
    }
}

proof fn lemma_fault_has_marker(
    l: Lang,
    items: Seq<ItemView>,
    outcomes: spec_fn(int) -> Outcome,
    k: nat,
    i: int,
) -> (n: int)
    requires
        0 <= i < k <= items.len(),
        fault_of(l, outcomes(i)).len() > 0,
    ensures
        0 <= n < checked_markers(l, items, outcomes, k).len(),
        checked_markers(l, items, outcomes, k)[n] == (
            items[i].line,
            flow::marker_text(l, items[i].name, fault_of(l, outcomes(i))),
        ),
    decreases k,
{
    let before = checked_markers(l, items, outcomes, (k - 1) as nat);
    if i == k - 1 {
        before.len() as int
    } else {
        lemma_fault_has_marker(l, items, outcomes, (k - 1) as nat, i)
    }
}

/// Each entry that cannot be used has a marker of its own, with its name and
/// what is wrong with it, in the lines right above the one where it is listed;
/// so have the entries that are listed on one line.
pub proof fn every_unusable_entry_is_marked(
    l: Lang,
    content: Seq<char>,
    outcomes: spec_fn(int) -> Outcome,
    i: int,
)
    requires
        router::table(content) is Ok,
        0 <= i < router::table(content)->Ok_0.len(),
        fault_of(l, outcomes(i)).len() > 0,
    ensures
        ({
            let items = router::table(content)->Ok_0;
            let invalid = checked_markers(l, items, outcomes, items.len());
            let lines = text::lines(content);
            let line = items[i].line;
            let written = router::marked(lines, invalid, lines.len());
            let above = router::markers_for(invalid, line);
            let p = router::place(lines, invalid, line);
            &&& above.len() <= p < written.len()
            &&& written[p as int] == lines[line as int]
            &&& written.subrange(p - above.len(), p as int) == above
            &&& above.contains(flow::marker_text(l, items[i].name, fault_of(l, outcomes(i))))
        }),
{
    let items = router::table(content)->Ok_0;
    let invalid = checked_markers(l, items, outcomes, items.len());
    router::entries_stand_on_lines(content, i);
    router::comments_stand_above_their_lines(text::lines(content), invalid, items[i].line);
    let n = lemma_fault_has_marker(l, items, outcomes, items.len(), i);
    assert(invalid[n].0 == items[i].line);
}

/// Where the fault of an entry depends on its name alone, the markers are those
/// of the names that cannot be used; such markers do not pile up when the table
/// is loaded again.
pub proof fn markers_follow_the_faults(
    l: Lang,
    items: Seq<ItemView>,
    outcomes: spec_fn(int) -> Outcome,
    bad: spec_fn(Seq<char>) -> Option<Seq<char>>,
)
    requires
        forall|i: int|
            0 <= i < items.len() ==> bad((#[trigger] items[i]).name) == if fault_of(
                l,
                outcomes(i),
            ).len() == 0 {
                None
            } else {
                Some(flow::marker_text(l, items[i].name, fault_of(l, outcomes(i))))
            },
    ensures
        checked_markers(l, items, outcomes, items.len()) == router::markers_of(items, bad),
    decreases items.len(),
{
    if items.len() > 0 {
        let init = items.drop_last();
        assert forall|i: int| 0 <= i < init.len() implies bad((#[trigger] init[i]).name)
            == if fault_of(l, outcomes(i)).len() == 0 {
            None
        } else {
            Some(flow::marker_text(l, init[i].name, fault_of(l, outcomes(i))))
        } by {
            assert(init[i] == items[i]);
        }
        markers_follow_the_faults(l, init, outcomes, bad);
        lemma_markers_prefix(l, items, outcomes, init.len());
        assert(items.take(init.len() as int) =~= init);
        assert(items.last() == items[items.len() - 1]);
    }
}

proof fn lemma_markers_prefix(
    l: Lang,
    items: Seq<ItemView>,
    outcomes: spec_fn(int) -> Outcome,
    k: nat,
)
    requires
        k <= items.len(),
    ensures
        checked_markers(l, items, outcomes, k) == checked_markers(
            l,
            items.take(k as int),
            outcomes,
            k,
        ),
    decreases k,
{
    if k > 0 {
        let j = (k - 1) as nat;
        lemma_markers_prefix(l, items, outcomes, j);
        lemma_markers_prefix(l, items.take(k as int), outcomes, j);
        assert(items.take(k as int).take(j as int) =~= items.take(j as int));
    }
}

// ---------------------------------------------------------------------------
// Restoring a session
// ---------------------------------------------------------------------------

/// The language of the last session is in force again, unless another one is
/// imposed; without a session the language stays.
pub proof fn the_language_is_restored(
    s: AppView,
    session: Option<SessionView>,
    imposed: Option<Lang>,
)
    ensures
        s.restoring(session, imposed).l() == match (imposed, session) {
            (None, Some(st)) => match st.language {
                Some(l) => l,
                None => s.l(),
            },
            _ => s.l(),
        },
{
}

/// The last router table is loaded again where it is still there; whether it
/// is or not, the configuration is restored next.
pub proof fn the_last_table_is_restored(
    s: AppView,
    st: SessionView,
    table: Seq<char>,
    r: Result<(), Seq<char>>,
)
    requires
        st.last_router == Some(table),
    ensures
        ({
            let caller = CallerView::Restore { state: st };
            let asked = s.restoring_table(st);
            &&& asked.wanted() == Some(RequestView::Exists { path: table })
            &&& asked.resumed(ReplyView::Found(true)) == s.at(
                TaskView::TableRead { table, caller },
            )
            &&& asked.resumed(ReplyView::Found(false)) == s.restoring_config(st)
            &&& s.at(TaskView::TableSession { table, caller }).resumed(ReplyView::Done(r))
                == s.session_saved(r).restoring_config(st)
        }),
{
    let caller = CallerView::Restore { state: st };
    let asked = s.restoring_table(st);
    assert(asked.resumed(ReplyView::Found(true)) == asked.table_found(table, st, true)) by {
        reveal(AppView::resumed_found);
    }
    assert(asked.resumed(ReplyView::Found(false)) == asked.table_found(table, st, false)) by {
        reveal(AppView::resumed_found);
    }
    let loaded = s.at(TaskView::TableSession { table, caller });
    assert(loaded.resumed(ReplyView::Done(r)) == loaded.session_saved(r).table_loaded(
        table,
        caller,
    )) by {
        reveal(AppView::resumed_done);
    }
}

/// Where the last configuration is still there and valid, it is in use again
/// at the end of the restore, whatever became of the router table; and the
/// session that is saved remembers it.
#[verifier::rlimit(30)]
pub proof fn the_last_configuration_is_restored(
    s: AppView,
    st: SessionView,
    c: ConfigView,
    t: Option<Mtime>,
    r: Result<(), Seq<char>>,
    again: Result<(), Seq<char>>,
    later: Option<Mtime>,
)
    requires
        st.last_config is Some,
        config::valid_config(c),
    ensures
        ({
            let path = st.last_config->0;
            let asked = s.restoring_config(st);
            let found = asked.resumed(ReplyView::Found(true));
            let loaded = found.resumed(ReplyView::Loaded(Ok(c)));
            let stamped = loaded.resumed(ReplyView::Stamp(t));
            let applied = stamped.resumed(ReplyView::Done(r));
            let saved = applied.resumed(ReplyView::Done(again));
            let after = saved.resumed(ReplyView::Stamp(later));
            &&& asked.wanted() == Some(RequestView::Exists { path })
            &&& found.wanted() == Some(RequestView::LoadConfig { path })
            &&& applied.wanted() == Some(RequestView::SaveSession { state: after.session() })
            &&& after.session().last_config == Some(path)
            &&& after.session().last_router == s.router_path
            &&& after.task is Idle
            &&& after.cfg == c
            &&& after.shared == c
            &&& after.config_source == Some(path)
            &&& after.watched == Some(path)
            &&& after.router_files == s.router_files
        }),
{
    let path = st.last_config->0;
    config::order_faults_are_exact(c.execution_order);
    let goal = GoalView::LastConfig { state: st };
    let asked = s.restoring_config(st);
    assert(asked == s.at(TaskView::FindConfig { path, state: st }));
    let found = asked.resumed(ReplyView::Found(true));
    assert(found == s.at(TaskView::ApplyLoad { path, goal })) by {
        lemma_found_config(s, path, st);
    }
    let used = AppView { cfg: c, config_source: Some(path), watched: Some(path), ..s };
    let loaded = found.resumed(ReplyView::Loaded(Ok(c)));
    assert(loaded == used.at(TaskView::ApplyStat { path, goal })) by {
        lemma_loaded_config(s, path, goal, c);
    }
    let synced = AppView { config_mtime: t, shared: c, ..used };
    let stamped = loaded.resumed(ReplyView::Stamp(t));
    assert(stamped == synced.at(TaskView::ApplySession { path, goal })) by {
        lemma_stamped_config(used, path, goal, t);
    }
    let applied = stamped.resumed(ReplyView::Done(r));
    assert(applied == stamped.session_saved(r).aligned(st)) by {
        lemma_saved_last(synced, path, st, r);
    }
    let saved = applied.resumed(ReplyView::Done(again));
    assert(saved == applied.session_saved(again).starting()) by {
        lemma_saved_restore(applied, again);
    }
    let after = saved.resumed(ReplyView::Stamp(later));
    assert(after == saved.started(later)) by {
        lemma_stamped_start(saved, later);
    }
}

proof fn lemma_found_config(s: AppView, path: Seq<char>, st: SessionView)
    ensures
        s.at(TaskView::FindConfig { path, state: st }).resumed(ReplyView::Found(true)) == s.at(
            TaskView::ApplyLoad { path, goal: GoalView::LastConfig { state: st } },
        ),
{
    reveal(AppView::resumed_found);
}

proof fn lemma_loaded_config(s: AppView, path: Seq<char>, goal: GoalView, c: ConfigView)
    requires
        config::config_fault(c) is None,
    ensures
        s.at(TaskView::ApplyLoad { path, goal }).resumed(ReplyView::Loaded(Ok(c))) == (AppView {
            cfg: c,
            config_source: Some(path),
            watched: Some(path),
            ..s
        }).at(TaskView::ApplyStat { path, goal }),
{
    reveal(AppView::resumed_loaded);
}

proof fn lemma_stamped_config(s: AppView, path: Seq<char>, goal: GoalView, t: Option<Mtime>)
    ensures
        s.at(TaskView::ApplyStat { path, goal }).resumed(ReplyView::Stamp(t)) == (AppView {
            config_mtime: t,
            shared: s.cfg,
            ..s
        }).at(TaskView::ApplySession { path, goal }),
{
    reveal(AppView::resumed_stamped);
}

proof fn lemma_saved_last(
    s: AppView,
    path: Seq<char>,
    st: SessionView,
    r: Result<(), Seq<char>>,
)
    ensures
        ({
            let at = s.at(
                TaskView::ApplySession { path, goal: GoalView::LastConfig { state: st } },
            );
            at.resumed(ReplyView::Done(r)) == at.session_saved(r).aligned(st)
        }),
{
    reveal(AppView::resumed_done);
}

proof fn lemma_saved_restore(s: AppView, r: Result<(), Seq<char>>)
    requires
        s.task is RestoreSession,
    ensures
        s.resumed(ReplyView::Done(r)) == s.session_saved(r).starting(),
{
    reveal(AppView::resumed_done);
}

proof fn lemma_stamped_start(s: AppView, t: Option<Mtime>)
    requires
        s.task is StartStat,
    ensures
        s.resumed(ReplyView::Stamp(t)) == s.started(t),
{
    reveal(AppView::resumed_stamped);
}

/// At the end of the restore the highlighted entry is a usable one, where there
/// is one; it is the entry of the active configuration where the table has it.
pub proof fn the_position_is_usable(s: AppView, recorded: usize)
    requires
        s.router_files.len() <= usize::MAX,
        flow::first_usable(s.router_files) is Some,
    ensures
        s.position(recorded) < s.router_files.len(),
        s.router_files[s.position(recorded) as int].valid,
        s.config_source matches Some(path) ==> (flow::entry_for(s.router_files, path, 0)
            matches Some(i) ==> s.position(recorded) == i),
{
    flow::lemma_usable_from(s.router_files, 0);
    if let Some(path) = s.config_source {
        flow::lemma_entry_for(s.router_files, path, 0);
    }
}

/// Without a session and without a default file, the configuration that the
/// program starts with is written to the default file and becomes the active
/// one.
pub proof fn a_default_file_is_generated(
    lang: LangState,
    imposed: Option<Lang>,
    t: Option<Mtime>,
)
    ensures
        ({
            let s = state::fresh(lang).restoring(None, imposed);
            let missing = s.resumed(ReplyView::Found(false));
            let saved = missing.resumed(ReplyView::Done(Ok(())));
            let after = saved.resumed(ReplyView::Stamp(t));
            &&& s.wanted() == Some(RequestView::Exists { path: flow::default_file() })
            &&& missing.wanted() == Some(
                RequestView::SaveConfig {
                    path: flow::default_file(),
                    cfg: config::default_config(),
                },
            )
            &&& after.task is Idle
            &&& after.config_source == Some(flow::default_file())
            &&& after.watched == Some(flow::default_file())
            &&& after.shared == config::default_config()
            &&& after.config_mtime == t
        }),
{
    let s = state::fresh(lang).restoring(None, imposed);
    let missing = s.resumed(ReplyView::Found(false));
    assert(missing == s.at(TaskView::DefaultSave { session: None })) by {
        lemma_default_missing(s);
    }
    let saved = missing.resumed(ReplyView::Done(Ok(())));
    assert(saved == missing.default_saved(None, Ok(()))) by {
        lemma_default_written(missing);
    }
    assert(saved.task is StartStat);
    lemma_stamped_start(saved, t);
}

proof fn lemma_default_missing(s: AppView)
    requires
        s.task == (TaskView::DefaultFind { session: None }),
    ensures
        s.resumed(ReplyView::Found(false)) == s.at(TaskView::DefaultSave { session: None }),
{
    reveal(AppView::resumed_found);
}

proof fn lemma_default_written(s: AppView)
    requires
        s.task == (TaskView::DefaultSave { session: None }),
    ensures
        s.resumed(ReplyView::Done(Ok(()))) == s.default_saved(None, Ok(())),
{
    reveal(AppView::resumed_done);
}

// ---------------------------------------------------------------------------
// Markers
// ---------------------------------------------------------------------------

proof fn lemma_trim_end_keeps(p: Seq<char>, rest: Seq<char>)
    requires
        p.len() > 0,
        !text::is_white(p.last()),
    ensures
        text::starts_with(text::trim_end(p + rest), p),
    decreases rest.len(),
{
    let s = p + rest;
    if rest.len() > 0 && text::is_white(s.last()) {
        assert(s.drop_last() =~= p + rest.drop_last());
        lemma_trim_end_keeps(p, rest.drop_last());
    } else {
        if rest.len() == 0 {
            assert(s =~= p);
        }
        assert(s.take(p.len() as int) =~= p);
    }
}

/// The comment that is put above an unusable entry is recognised as a marker,
/// in either language, so it is taken out when the table is loaded the next
/// time.
pub proof fn marker_texts_are_markers(l: Lang, name: Seq<char>, fault: Seq<char>)
    ensures
        router::is_marker(flow::marker_text(l, name, fault)),
{
    reveal_strlit("# [无效] ");
    reveal_strlit("# [无效]");
    reveal_strlit("# [invalid] ");
    reveal_strlit("# [invalid]");
    let p = lang::pick(l, "# [无效]"@, "# [invalid]"@);
    let rest = seq![' '] + name + ": "@ + fault;
    let s = flow::marker_text(l, name, fault);
    assert(lang::pick(l, "# [无效] "@, "# [invalid] "@) =~= p.push(' '));
    assert(s =~= p + rest);
    assert(s[0] == '#');
    assert(text::trim_start(s) == s);
    lemma_trim_end_keeps(p, rest);
}

// ---------------------------------------------------------------------------
// Every operation ends
// ---------------------------------------------------------------------------

pub open spec fn caller_rank(caller: CallerView) -> nat {
    match caller {
        CallerView::Dialog => 0,
        CallerView::Restore { state } => 12,
    }
}

pub open spec fn goal_rank(goal: GoalView) -> nat {
    match goal {
        GoalView::LoadDialog => 0,
        GoalView::FirstOfTable { table, caller } => 1 + caller_rank(caller),
        GoalView::LastConfig { state } => 8,
        GoalView::InsteadOfLast { state, index } => 4,
    }
}

/// How far a task is from its end.
pub open spec fn rank(task: TaskView) -> nat {
    match task {
        TaskView::Idle => 0,
        TaskView::Pick { kind } => 8,
        TaskView::Export { path } => 1,
        TaskView::ApplyLoad { path, goal } => goal_rank(goal) + 3,
        TaskView::ApplyStat { path, goal } => goal_rank(goal) + 2,
        TaskView::ApplySession { path, goal } => goal_rank(goal) + 1,
        TaskView::TableRead { table, caller } => caller_rank(caller) + 7,
        TaskView::TableCheck { table, content, items, entries, invalid, caller } => caller_rank(
            caller,
        ) + 6,
        TaskView::TableWrite { table, content, entries, caller } => caller_rank(caller) + 5,
        TaskView::TableSession { table, caller } => caller_rank(caller) + 1,
        TaskView::FindTable { table, state } => 20,
        TaskView::FindConfig { path, state } => 12,
        TaskView::DefaultFind { session } => 4,
        TaskView::DefaultLoad { session } => 3,
        TaskView::DefaultSave { session } => 3,
        TaskView::RestoreSession => 2,
        TaskView::StartStat => 1,
        TaskView::AutoSave => 2,
        TaskView::AutoStat => 1,
        TaskView::SwitchLoad { index, tried } => 3,
        TaskView::SwitchStat { index } => 2,
        TaskView::SwitchSession { index } => 1,
        TaskView::HotStat => 2,
        TaskView::HotLoad { mtime } => 1,
        TaskView::LangSession => 1,
    }
}

/// The entries of a table that are still to be looked at.
pub open spec fn entries_left(s: AppView) -> int {
    match s.task {
        TaskView::TableCheck { table, content, items, entries, invalid, caller } => items.len()
            - entries.len(),
        TaskView::SwitchLoad { index, tried } => s.router_files.len() - tried,
        _ => 0,
    }
}

/// A reply of the kind that the request asks for.
pub open spec fn answers(request: RequestView, reply: ReplyView) -> bool {
    match request {
        RequestView::Pick { kind, source } => reply is Picked,
        RequestView::Exists { path } => reply is Found,
        RequestView::LoadConfig { path } => reply is Loaded,
        RequestView::SaveConfig { path, cfg } => reply is Done,
        RequestView::Stat { path } => reply is Stamp,
        RequestView::ReadText { path } => reply is Content,
        RequestView::CheckEntry { table, name } => reply is Checked,
        RequestView::WriteText { path, text } => reply is Done,
        RequestView::SaveSession { state } => reply is Done,
    }
}

/// An operation has come nearer to its end.
pub open spec fn nearer(after: AppView, before: AppView) -> bool {
    rank(after.task) < rank(before.task) || (rank(after.task) == rank(before.task) && 0
        <= entries_left(after) < entries_left(before))
}

proof fn lemma_picked_progress(s: AppView, p: Option<Seq<char>>)
    requires
        s.task is Pick,
    ensures
        nearer(s.resumed_picked(p), s),
{
    reveal(AppView::resumed_picked);
}

proof fn lemma_found_progress(s: AppView, b: bool)
    requires
        s.task is FindTable || s.task is FindConfig || s.task is DefaultFind,
    ensures
        nearer(s.resumed_found(b), s),
{
    reveal(AppView::resumed_found);
}

proof fn lemma_loaded_progress(s: AppView, r: Result<ConfigView, Seq<char>>)
    requires
        s.wf(),
        s.task is ApplyLoad || s.task is DefaultLoad || s.task is SwitchLoad || s.task is HotLoad,
    ensures
        nearer(s.resumed_loaded(r), s),
{
    reveal(AppView::resumed_loaded);
    match s.task {
        TaskView::ApplyLoad { path, goal } => {
            assert(s.resumed_loaded(r) == s.apply_loaded(path, goal, r));
        },
        TaskView::DefaultLoad { session } => {
            assert(s.resumed_loaded(r) == s.default_loaded(session, r));
        },
        TaskView::SwitchLoad { index, tried } => {
            assert(s.resumed_loaded(r) == s.switch_loaded(index, tried, r));
        },
        _ => {},
    }
}

proof fn lemma_stamped_progress(s: AppView, t: Option<Mtime>)
    requires
        s.task is ApplyStat || s.task is StartStat || s.task is AutoStat || s.task is SwitchStat
            || s.task is HotStat,
    ensures
        nearer(s.resumed_stamped(t), s),
{
    reveal(AppView::resumed_stamped);
}

proof fn lemma_done_progress(s: AppView, r: Result<(), Seq<char>>)
    requires
        s.task is Export || s.task is ApplySession || s.task is TableWrite || s.task is TableSession
            || s.task is DefaultSave || s.task is RestoreSession || s.task is AutoSave
            || s.task is SwitchSession || s.task is LangSession,
    ensures
        nearer(s.resumed_done(r), s),
{
    reveal(AppView::resumed_done);
    match s.task {
        TaskView::ApplySession { path, goal } => {
            assert(s.resumed_done(r) == s.session_saved(r).applied(path, goal));
        },
        TaskView::TableWrite { table, content, entries, caller } => {
            assert(s.resumed_done(r) == s.table_written(table, entries, caller, r));
        },
        TaskView::TableSession { table, caller } => {
            assert(s.resumed_done(r) == s.session_saved(r).table_loaded(table, caller));
        },
        TaskView::DefaultSave { session } => {
            assert(s.resumed_done(r) == s.default_saved(session, r));
        },
        _ => {},
    }
}

proof fn lemma_content_progress(s: AppView, r: Result<Seq<char>, Seq<char>>)
    requires
        s.task is TableRead,
    ensures
        nearer(s.resumed_content(r), s),
{
    reveal(AppView::resumed_content);
}

proof fn lemma_checked_progress(
    s: AppView,
    absolute: bool,
    beside: Seq<char>,
    exists: bool,
    loaded: Result<ConfigView, Seq<char>>,
)
    requires
        s.task is TableCheck,
        s.task_fits(),
    ensures
        nearer(s.resumed_checked(absolute, beside, exists, loaded), s),
{
    reveal(AppView::resumed_checked);
}

/// Each reply brings an operation nearer to its end, so every operation ends.
pub proof fn every_reply_makes_progress(s: AppView, reply: ReplyView)
    requires
        s.wf(),
        s.wanted() matches Some(request) && answers(request, reply),
    ensures
        nearer(s.resumed(reply), s),
{
    match reply {
        ReplyView::Picked(p) => lemma_picked_progress(s, p),
        ReplyView::Found(b) => lemma_found_progress(s, b),
        ReplyView::Loaded(r) => lemma_loaded_progress(s, r),
        ReplyView::Stamp(t) => lemma_stamped_progress(s, t),
        ReplyView::Done(r) => lemma_done_progress(s, r),
        ReplyView::Content(r) => lemma_content_progress(s, r),
        ReplyView::Checked { absolute, beside, exists, loaded } => lemma_checked_progress(
            s,
            absolute,
            beside,
            exists,
            loaded,
        ),
    }
}

} // verus!
